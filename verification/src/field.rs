//! Modular arithmetic over a fixed large prime.
//!
//! Every circuit value is an element of the prime field `Z/p` for the fixed
//! 64-bit prime `p = 2^64 - 2^32 + 1` (the scalar field used by several
//! modern proving systems).  All operations reduce modulo `p` and can never
//! fail: wraparound is part of the arithmetic, never a bug.  Equality is
//! exact equality of the canonical representative in `[0, p)`.
//!
//! A 64-bit prime is chosen so that every element fits one machine word
//! and the arithmetic can be verified exactly; the constraint semantics —
//! including the wraparound forgeries the examples probe — are the same
//! for any fixed large prime.

use vstd::prelude::*;

verus! {

/// The fixed prime modulus `p = 2^64 - 2^32 + 1`.
pub const MODULUS: u64 = 0xffff_ffff_0000_0001;

/// An element of the prime field, kept as its canonical representative
/// in `[0, MODULUS)`.
#[derive(Clone, Copy, Debug, PartialEq, Eq, Structural, Hash)]
pub struct FieldElement {
    n: u64,
}

impl FieldElement {
    #[verifier::type_invariant]
    spec fn type_inv(self) -> bool {
        self.n < MODULUS
    }

    /// The mathematical value of the element, in `[0, MODULUS)`.
    pub closed spec fn as_int(self) -> int {
        self.n as int
    }

    /// Every element's value lies in `[0, MODULUS)`.
    pub fn bounds(&self)
        ensures
            0 <= self.as_int() < MODULUS as int,
    {
        proof {
            use_type_invariant(*self);
        }
    }

    /// Two elements are equal exactly when their values are equal.
    pub proof fn lemma_eq_int(a: FieldElement, b: FieldElement)
        ensures
            (a == b) <==> (a.as_int() == b.as_int()),
    {
    }

    /// The additive identity.
    pub fn zero() -> (r: FieldElement)
        ensures
            r.as_int() == 0,
    {
        FieldElement { n: 0 }
    }

    /// The element whose value is `x` reduced modulo the prime.
    pub fn from_u64(x: u64) -> (r: FieldElement)
        ensures
            r.as_int() == x as int % MODULUS as int,
    {
        FieldElement { n: x % MODULUS }
    }

    /// The canonical representative as a machine integer.
    pub fn to_u64(self) -> (r: u64)
        ensures
            r as int == self.as_int(),
    {
        proof {
            use_type_invariant(self);
        }
        self.n
    }

    /// Field addition: `(self + other) mod p`.
    pub fn add(self, other: FieldElement) -> (r: FieldElement)
        ensures
            r.as_int() == (self.as_int() + other.as_int()) % (MODULUS as int),
    {
        proof {
            use_type_invariant(self);
            use_type_invariant(other);
        }
        let s: u128 = self.n as u128 + other.n as u128;
        FieldElement { n: (s % (MODULUS as u128)) as u64 }
    }

    /// Field negation: `(-self) mod p`.
    pub fn neg(self) -> (r: FieldElement)
        ensures
            r.as_int() == (0 - self.as_int()) % (MODULUS as int),
    {
        proof {
            use_type_invariant(self);
        }
        if self.n == 0 {
            FieldElement { n: 0 }
        } else {
            proof {
                vstd::arithmetic::div_mod::lemma_fundamental_div_mod_converse_mod(
                    0 - self.n as int,
                    MODULUS as int,
                    -1,
                    MODULUS as int - self.n as int,
                );
            }
            FieldElement { n: MODULUS - self.n }
        }
    }

    /// Field subtraction: `(self - other) mod p`.
    pub fn sub(self, other: FieldElement) -> (r: FieldElement)
        ensures
            r.as_int() == (self.as_int() - other.as_int()) % (MODULUS as int),
    {
        let r = self.add(other.neg());
        proof {
            vstd::arithmetic::div_mod::lemma_add_mod_noop_right(
                self.as_int(),
                0 - other.as_int(),
                MODULUS as int,
            );
        }
        r
    }

    /// Field multiplication: `(self * other) mod p`.
    pub fn mul(self, other: FieldElement) -> (r: FieldElement)
        ensures
            r.as_int() == (self.as_int() * other.as_int()) % (MODULUS as int),
    {
        proof {
            use_type_invariant(self);
            use_type_invariant(other);
            assert(self.n as int * other.n as int <= 0xffff_ffff_ffff_ffff * 0xffff_ffff_ffff_ffff)
                by (nonlinear_arith)
                requires
                    self.n as int <= 0xffff_ffff_ffff_ffff,
                    other.n as int <= 0xffff_ffff_ffff_ffff,
                    0 <= self.n as int,
                    0 <= other.n as int,
            ;
        }
        let p: u128 = self.n as u128 * other.n as u128;
        FieldElement { n: (p % (MODULUS as u128)) as u64 }
    }
}

/// A reduced difference vanishes modulo the prime exactly for equal
/// values: `(x + (-y mod p)) mod p == 0` iff `x == y`, for canonical
/// `x` and `y`.
pub proof fn lemma_sub_mod_zero_iff(x: int, y: int)
    requires
        0 <= x < MODULUS as int,
        0 <= y < MODULUS as int,
    ensures
        (((x + (0 - y) % (MODULUS as int)) % (MODULUS as int)) == 0) <==> (x == y),
{
    let m = MODULUS as int;
    vstd::arithmetic::div_mod::lemma_add_mod_noop_right(x, 0 - y, m);
    if x == y {
        assert((x - y) % m == 0);
    } else if x > y {
        vstd::arithmetic::div_mod::lemma_small_mod((x - y) as nat, m as nat);
    } else {
        vstd::arithmetic::div_mod::lemma_fundamental_div_mod_converse_mod(
            x - y,
            m,
            -1,
            x - y + m,
        );
    }
}

} // verus!
