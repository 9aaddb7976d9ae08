//! The row table.
//!
//! The table is logically `rows x columns`: a vector of advice columns, a
//! vector of boolean selector columns, and the public instance column. Once
//! witness assignment has filled it, it is handed read-only to the verifier;
//! the mutators here exist so that a caller can probe what verification makes
//! of a corrupted table.

use vstd::prelude::*;
use halo2_proofs::pasta::Fp;
use crate::field::{fp_inv, fp_val};
use crate::schema::AssignmentError;

verus! {

/// A fully assigned table. `advice[c][r]` is the private cell of column `c`
/// at row `r`; `selectors[s][r]` tells whether selector `s` is on at row `r`;
/// `instance[i]` is the `i`-th externally supplied public value.
pub struct Table {
    pub n_rows: usize,
    pub advice: Vec<Vec<Fp>>,
    pub selectors: Vec<Vec<bool>>,
    pub instance: Vec<Fp>,
}

impl Table {
    /// The residue held by an advice cell.
    pub open spec fn cell_val(self, col: int, row: int) -> nat {
        fp_val(self.advice@[col]@[row])
    }

    /// Whether a selector is on at a row.
    pub open spec fn sel_on(self, sel: int, row: int) -> bool {
        self.selectors@[sel]@[row]
    }

    /// The residue of a public instance value.
    pub open spec fn inst_val(self, i: int) -> nat {
        fp_val(self.instance@[i])
    }

    /// Well-formedness: every column has exactly `n_rows` cells, every held
    /// element is canonical, and a selector is only on at rows that have a
    /// next row — its governed gate reads one.
    pub open spec fn wf(self) -> bool {
        &&& forall|c: int|
            0 <= c < self.advice@.len() ==> (#[trigger] self.advice@[c])@.len() == self.n_rows
        &&& forall|c: int, r: int|
            0 <= c < self.advice@.len() && 0 <= r < self.n_rows ==> fp_inv(
                #[trigger] self.advice@[c]@[r],
            )
        &&& forall|s: int|
            0 <= s < self.selectors@.len() ==> (#[trigger] self.selectors@[s])@.len()
                == self.n_rows
        &&& forall|s: int, r: int|
            0 <= s < self.selectors@.len() && 0 <= r < self.n_rows && #[trigger] self
                .selectors@[s]@[r] ==> r + 1 < self.n_rows
        &&& forall|i: int| 0 <= i < self.instance@.len() ==> fp_inv(#[trigger] self.instance@[i])
    }

    /// Everything but the one advice cell `(col, row)` agrees between `self`
    /// and `other`; shape, selectors and instance agree entirely.
    pub open spec fn same_but_cell(self, other: Table, col: int, row: int) -> bool {
        &&& self.n_rows == other.n_rows
        &&& self.advice@.len() == other.advice@.len()
        &&& self.selectors@ == other.selectors@
        &&& self.instance@ == other.instance@
        &&& forall|c: int|
            0 <= c < self.advice@.len() ==> (#[trigger] self.advice@[c])@.len()
                == other.advice@[c]@.len()
        &&& forall|c: int, r: int|
            0 <= c < self.advice@.len() && 0 <= r < self.advice@[c]@.len() && !(c == col && r
                == row) ==> #[trigger] self.advice@[c]@[r] == other.advice@[c]@[r]
    }

    /// Reads an advice cell.
    pub fn cell(&self, col: usize, row: usize) -> (r: Fp)
        requires
            self.wf(),
            col < self.advice@.len(),
            row < self.n_rows,
        ensures
            fp_val(r) == self.cell_val(col as int, row as int),
            fp_inv(r),
    {
        self.advice[col][row]
    }

    /// The computed result: the running-product cell at the final row.
    pub fn output(&self) -> (r: Fp)
        requires
            self.wf(),
            self.advice@.len() >= 1,
            self.n_rows >= 1,
        ensures
            fp_val(r) == self.cell_val(0, self.n_rows - 1),
            fp_inv(r),
    {
        self.cell(0, self.n_rows - 1)
    }

    /// Reads a selector flag.
    pub fn selector(&self, sel: usize, row: usize) -> (r: bool)
        requires
            self.wf(),
            sel < self.selectors@.len(),
            row < self.n_rows,
        ensures
            r == self.sel_on(sel as int, row as int),
    {
        self.selectors[sel][row]
    }

    /// Overwrites one assigned advice cell, leaving all else unchanged.
    /// This does not re-run the recurrence: it exists to let a caller break a
    /// table on purpose and watch the verifier reject it.
    pub fn set_cell(&mut self, col: usize, row: usize, value: Fp) -> (r: Result<
        (),
        AssignmentError,
    >)
        requires
            old(self).wf(),
            fp_inv(value),
        ensures
            final(self).wf(),
            r is Ok <==> col < old(self).advice@.len() && row < old(self).n_rows,
            r matches Err(e) ==> e == AssignmentError::CellOutOfRange && *final(self) == *old(self),
            r is Ok ==> final(self).same_but_cell(*old(self), col as int, row as int) && final(self).cell_val(col as int, row as int) == fp_val(value),
    {
        if col < self.advice.len() && row < self.n_rows {
            proof {
                assert(old(self).advice@[col as int]@.len() == old(self).n_rows);
            }
            self.advice[col][row] = value;
            Ok(())
        } else {
            Err(AssignmentError::CellOutOfRange)
        }
    }

    /// Turns a selector on at a row. Enabling is rejected on the final row:
    /// its governed gate references the next row, which that row
    /// lacks.
    pub fn enable_selector(&mut self, sel: usize, row: usize) -> (r: Result<(), AssignmentError>)
        requires
            old(self).wf(),
        ensures
            final(self).wf(),
            r is Ok <==> sel < old(self).selectors@.len() && row + 1 < old(self).n_rows,
            r matches Err(e) ==> *final(self) == *old(self) && (e
                == AssignmentError::CellOutOfRange <==> (sel >= old(self).selectors@.len() || row
                >= old(self).n_rows)) && (e == AssignmentError::SelectorOnFinalRow <==> (sel < old(self).selectors@.len() && row + 1 == old(self).n_rows)),
            r is Ok ==> final(self).same_but_selector(*old(self), sel as int, row as int) && final(self).sel_on(sel as int, row as int),
    {
        if sel >= self.selectors.len() || row >= self.n_rows {
            Err(AssignmentError::CellOutOfRange)
        } else if row + 1 == self.n_rows {
            Err(AssignmentError::SelectorOnFinalRow)
        } else {
            proof {
                assert(old(self).selectors@[sel as int]@.len() == old(self).n_rows);
            }
            self.selectors[sel][row] = true;
            Ok(())
        }
    }

    /// Turns a selector off at a row. The row's gate expressions then go
    /// unchecked: under-enabling silently accepts whatever the row holds,
    /// which is exactly the design risk this mutator lets a caller observe.
    pub fn disable_selector(&mut self, sel: usize, row: usize) -> (r: Result<(), AssignmentError>)
        requires
            old(self).wf(),
        ensures
            final(self).wf(),
            r is Ok <==> sel < old(self).selectors@.len() && row < old(self).n_rows,
            r matches Err(e) ==> e == AssignmentError::CellOutOfRange && *final(self) == *old(self),
            r is Ok ==> final(self).same_but_selector(*old(self), sel as int, row as int) && !final(self).sel_on(sel as int, row as int),
    {
        if sel < self.selectors.len() && row < self.n_rows {
            proof {
                assert(old(self).selectors@[sel as int]@.len() == old(self).n_rows);
            }
            self.selectors[sel][row] = false;
            Ok(())
        } else {
            Err(AssignmentError::CellOutOfRange)
        }
    }

    /// Everything but the one selector flag `(sel, row)` agrees between
    /// `self` and `other`; shape, advice and instance agree entirely.
    pub open spec fn same_but_selector(self, other: Table, sel: int, row: int) -> bool {
        &&& self.n_rows == other.n_rows
        &&& self.advice@ == other.advice@
        &&& self.instance@ == other.instance@
        &&& self.selectors@.len() == other.selectors@.len()
        &&& forall|s: int|
            0 <= s < self.selectors@.len() ==> (#[trigger] self.selectors@[s])@.len()
                == other.selectors@[s]@.len()
        &&& forall|s: int, r: int|
            0 <= s < self.selectors@.len() && 0 <= r < self.selectors@[s]@.len() && !(s == sel && r
                == row) ==> #[trigger] self.selectors@[s]@[r] == other.selectors@[s]@[r]
    }
}

/// A copy constraint: an equality obligation binding the advice cell
/// `(col, row)` to the public instance value at `instance_row`, independent
/// of row adjacency.
#[derive(Clone, Copy, Debug, PartialEq, Eq, Structural)]
pub struct CopyConstraint {
    pub col: usize,
    pub row: usize,
    pub instance_row: usize,
}

impl CopyConstraint {
    /// The constraint only references cells the table has.
    pub open spec fn wf(self, t: Table) -> bool {
        &&& self.col < t.advice@.len()
        &&& self.row < t.n_rows
        &&& self.instance_row < t.instance@.len()
    }

    /// The two referenced cells hold identical field values.
    pub open spec fn holds(self, t: Table) -> bool {
        t.cell_val(self.col as int, self.row as int) == t.inst_val(self.instance_row as int)
    }
}

} // verus!
