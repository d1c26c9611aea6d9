//! A deterministic constraint-satisfaction checker for PLONK-style
//! arithmetized circuits: columns of field values, boolean selectors,
//! polynomial gate constraints, copy (equality) constraints and
//! table-membership (lookup) constraints.
//!
//! A circuit shape is described once as a [`system::ConstraintSystem`]; a
//! witness run fills an [`assign::AssignmentTable`] through the sequential
//! [`assign::Assigner`]; the [`prover::Verifier`] evaluates every gate,
//! copy-constraint class and lookup against the table and the public
//! instance values and returns the full list of violations.

pub mod assign;
pub mod casino;
pub mod error;
pub mod expression;
pub mod field;
pub mod laws;
pub mod layout;
pub mod merkle;
pub mod mul;
pub mod non_deterministic;
pub mod permutation;
pub mod prover;
pub mod simple_circuit;
pub mod square_root;

pub mod system;
pub mod underconstrained;
pub mod value;
