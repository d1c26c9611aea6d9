//! Configuration errors: mistakes in the circuit description or its use.
//!
//! These are fatal at build or assignment time — they mean the circuit
//! description itself is wrong, not that a witness is bad.  Witness
//! problems are never errors; they are collected as
//! [`crate::prover::Violation`] data by the verifier.

use vstd::prelude::*;

verus! {

/// A fatal mistake in the circuit description or in how it is driven.
#[derive(Clone, Copy, Debug, PartialEq, Eq, Structural)]
pub enum Error {
    /// A column index does not exist in the constraint system.
    ColumnOutOfBounds,
    /// A selector index does not exist in the constraint system.
    SelectorOutOfBounds,
    /// A row lies at or past the circuit's `2^k` usable rows.
    RowOutOfBounds,
    /// A query's rotation leaves `[0, 2^k)` at a row where it is evaluated.
    RotationOutOfBounds,
    /// A copy constraint names a column that is not equality-enabled.
    EqualityNotEnabled,
    /// The size exponent `k` is too large for this machine.
    SizeTooLarge,
    /// A lookup table cell was assigned twice.
    TableCellReassigned,
    /// The assignment table or the instance vectors do not match the
    /// constraint system's shape.
    ShapeMismatch,
}

} // verus!
