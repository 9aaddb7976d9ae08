//! An arithmetic-circuit assignment and constraint-verification engine.
//!
//! The crate declares a fixed-shape table of columns (advice, instance,
//! selectors), a recurrence gate over adjacent rows, fills the table with a
//! witness that computes a descending factorial over the Pallas base field,
//! and verifies that every row with its selector enabled satisfies the
//! declared polynomial identities and that every bound copy constraint holds.

pub mod field;
pub mod schema;
pub mod table;
pub mod expr;
pub mod chip;
pub mod verify;
pub mod laws;
