//! The static shape of a circuit: column and selector handles and cell
//! addresses.
//!
//! A column is identified by its kind and its index within that kind;
//! handles of distinct kinds are distinct types, so a query can never mix
//! them up.  A cell is the addressable unit of assignment: a column paired
//! with an absolute row.

use vstd::prelude::*;

verus! {

/// A handle to an advice (private witness) column.
#[derive(Clone, Copy, Debug, PartialEq, Eq, Structural)]
pub struct AdviceColumn {
    pub index: usize,
}

/// A handle to an instance (public input) column.
#[derive(Clone, Copy, Debug, PartialEq, Eq, Structural)]
pub struct InstanceColumn {
    pub index: usize,
}

/// A handle to a lookup table (fixed content) column.
#[derive(Clone, Copy, Debug, PartialEq, Eq, Structural)]
pub struct TableColumn {
    pub index: usize,
}

/// A handle to a per-row boolean selector, default false on every row.
#[derive(Clone, Copy, Debug, PartialEq, Eq, Structural)]
pub struct Selector {
    pub index: usize,
}

/// An assigned advice cell: an advice column index and an absolute row.
#[derive(Clone, Copy, Debug, PartialEq, Eq, Structural)]
pub struct Cell {
    pub column: usize,
    pub row: usize,
}

/// A cell reference in a diagnostic: either an advice cell or an instance
/// cell (a position in a public input column).
#[derive(Clone, Copy, Debug, PartialEq, Eq, Structural)]
pub enum CellRef {
    Advice { column: usize, row: usize },
    Instance { column: usize, row: usize },
}

} // verus!
