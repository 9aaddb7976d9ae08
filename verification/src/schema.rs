//! The column schema and the engine's error kinds.

use vstd::prelude::*;

verus! {

/// A malformed column declaration, surfaced at configuration time.
#[derive(Clone, Copy, Debug, PartialEq, Eq, Structural)]
pub enum SchemaError {
    /// The caller requested zero private columns; the recurrence needs some.
    NoPrivateColumns,
}

/// A failure surfaced before any table is handed to the verifier.
#[derive(Clone, Copy, Debug, PartialEq, Eq, Structural)]
pub enum AssignmentError {
    /// The requested row count leaves no room for a seed row and a step.
    RowCountTooSmall,
    /// The public instance does not supply the required seed value.
    MissingSeed,
    /// A cell or selector reference lies outside the table.
    CellOutOfRange,
    /// A selector would be enabled on a row that has no next row to
    /// constrain against.
    SelectorOnFinalRow,
    /// A copy constraint names a public instance row the instance lacks.
    InstanceRowOutOfRange,
}

/// The shape of the table: a number of private (advice) columns, one public
/// (instance) column, and a number of boolean row selectors. Fixed once at
/// configuration time.
#[derive(Clone, Copy, Debug, PartialEq, Eq, Structural)]
pub struct Schema {
    pub n_advice: usize,
    pub n_selectors: usize,
}

/// Declares the shape of the table. Pure configuration; fails exactly when
/// the caller requests zero private columns.
pub fn declare_schema(n_advice: usize, n_selectors: usize) -> (r: Result<Schema, SchemaError>)
    ensures
        r matches Ok(s) ==> n_advice >= 1 && s.n_advice == n_advice && s.n_selectors
            == n_selectors,
        r matches Err(e) ==> n_advice == 0 && e == SchemaError::NoPrivateColumns,
        r is Ok <==> n_advice >= 1,
{
    if n_advice == 0 {
        Err(SchemaError::NoPrivateColumns)
    } else {
        Ok(Schema { n_advice, n_selectors })
    }
}

} // verus!
