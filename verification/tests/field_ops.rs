use plonk_mock::field::FieldElement;
use plonk_mock::field::MODULUS;
use plonk_mock::value::Value;

#[test]
fn field_add_small() {
    let a = FieldElement::from_u64(3);
    let b = FieldElement::from_u64(4);
    assert_eq!(a.add(b).to_u64(), 7);
}

#[test]
fn field_add_wraps() {
    let a = FieldElement::from_u64(MODULUS - 1);
    let b = FieldElement::from_u64(5);
    assert_eq!(a.add(b).to_u64(), 4);
}

#[test]
fn field_from_reduces() {
    assert_eq!(FieldElement::from_u64(MODULUS).to_u64(), 0);
    assert_eq!(FieldElement::from_u64(u64::MAX).to_u64(), u64::MAX - MODULUS);
}

#[test]
fn field_sub_wraps() {
    let a = FieldElement::from_u64(2);
    let b = FieldElement::from_u64(5);
    assert_eq!(a.sub(b).to_u64(), MODULUS - 3);
    assert_eq!(b.sub(a).to_u64(), 3);
}

#[test]
fn field_neg() {
    assert_eq!(FieldElement::zero().neg().to_u64(), 0);
    assert_eq!(FieldElement::from_u64(1).neg().to_u64(), MODULUS - 1);
}

#[test]
fn field_mul_exact() {
    let a = FieldElement::from_u64(1 << 32);
    let b = FieldElement::from_u64(1 << 32);
    // 2^64 mod (2^64 - 2^32 + 1) == 2^32 - 1.
    assert_eq!(a.mul(b).to_u64(), (1 << 32) - 1);
    let x = FieldElement::from_u64(123456789);
    let y = FieldElement::from_u64(987654321);
    assert_eq!(x.mul(y).to_u64(), 123456789u64 * 987654321u64);
}

#[test]
fn field_eq_is_value_eq() {
    assert_eq!(FieldElement::from_u64(7), FieldElement::from_u64(MODULUS + 7));
    assert_ne!(FieldElement::from_u64(7), FieldElement::from_u64(8));
}

#[test]
fn value_arithmetic_propagates_unknown() {
    let k = Value::known(FieldElement::from_u64(6));
    let u = Value::unknown();
    assert!(k.is_known());
    assert!(!u.is_known());
    assert!(!k.add(u).is_known());
    assert!(!u.mul(k).is_known());
    assert!(!u.neg().is_known());
    assert_eq!(
        k.add(Value::known(FieldElement::from_u64(4))),
        Value::known(FieldElement::from_u64(10))
    );
    assert_eq!(
        k.mul(Value::known(FieldElement::from_u64(7))),
        Value::known(FieldElement::from_u64(42))
    );
    assert_eq!(
        k.sub(Value::known(FieldElement::from_u64(2))),
        Value::known(FieldElement::from_u64(4))
    );
    assert!(!k.sub(u).is_known());
}
