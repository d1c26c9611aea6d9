//! Assignable cell values: a known field element or "not yet assigned".
//!
//! Arithmetic on values mirrors field arithmetic but propagates `Unknown`:
//! any operation with an `Unknown` operand yields `Unknown`.

use vstd::prelude::*;

use crate::field::FieldElement;
use crate::field::MODULUS;

verus! {

/// The content of a cell: a concrete field element or nothing yet.
#[derive(Clone, Copy, Debug, PartialEq, Eq, Structural)]
pub enum Value {
    Known(FieldElement),
    Unknown,
}

/// Addition on optional field values: `None` propagates.
pub open spec fn opt_add(a: Option<int>, b: Option<int>) -> Option<int> {
    match (a, b) {
        (Some(x), Some(y)) => Some((x + y) % (MODULUS as int)),
        _ => None,
    }
}

/// Negation on optional field values: `None` propagates.
pub open spec fn opt_neg(a: Option<int>) -> Option<int> {
    match a {
        Some(x) => Some((0 - x) % (MODULUS as int)),
        None => None,
    }
}

/// Multiplication on optional field values: `None` propagates.
pub open spec fn opt_mul(a: Option<int>, b: Option<int>) -> Option<int> {
    match (a, b) {
        (Some(x), Some(y)) => Some((x * y) % (MODULUS as int)),
        _ => None,
    }
}

impl Value {
    /// The value as an optional integer in `[0, MODULUS)`; `None` means
    /// the cell is unassigned.
    pub open spec fn as_opt(self) -> Option<int> {
        match self {
            Value::Known(f) => Some(f.as_int()),
            Value::Unknown => None,
        }
    }

    /// A known value.
    pub fn known(f: FieldElement) -> (r: Value)
        ensures
            r == Value::Known(f),
    {
        Value::Known(f)
    }

    /// An unassigned value.
    pub fn unknown() -> (r: Value)
        ensures
            r == Value::Unknown,
    {
        Value::Unknown
    }

    /// Whether the value is assigned.
    pub fn is_known(&self) -> (b: bool)
        ensures
            b == (self.as_opt() is Some),
    {
        match self {
            Value::Known(_) => true,
            Value::Unknown => false,
        }
    }

    /// Value addition; `Unknown` propagates.
    pub fn add(self, other: Value) -> (r: Value)
        ensures
            r.as_opt() == opt_add(self.as_opt(), other.as_opt()),
    {
        match (self, other) {
            (Value::Known(a), Value::Known(b)) => Value::Known(a.add(b)),
            _ => Value::Unknown,
        }
    }

    /// Value negation; `Unknown` propagates.
    pub fn neg(self) -> (r: Value)
        ensures
            r.as_opt() == opt_neg(self.as_opt()),
    {
        match self {
            Value::Known(a) => Value::Known(a.neg()),
            Value::Unknown => Value::Unknown,
        }
    }

    /// Value subtraction; `Unknown` propagates.
    pub fn sub(self, other: Value) -> (r: Value)
        ensures
            r.as_opt() == opt_add(self.as_opt(), opt_neg(other.as_opt())),
    {
        self.add(other.neg())
    }

    /// Value multiplication; `Unknown` propagates.
    pub fn mul(self, other: Value) -> (r: Value)
        ensures
            r.as_opt() == opt_mul(self.as_opt(), other.as_opt()),
    {
        match (self, other) {
            (Value::Known(a), Value::Known(b)) => Value::Known(a.mul(b)),
            _ => Value::Unknown,
        }
    }
}

} // verus!
