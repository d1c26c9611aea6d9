use plonk_mock::field::FieldElement;
use plonk_mock::field::MODULUS;
use plonk_mock::laws::check_product;
use plonk_mock::laws::check_running_sum;
use plonk_mock::laws::check_unconstrained;
use plonk_mock::laws::forge_product;
use plonk_mock::prover::Violation;

#[test]
fn product_circuit_accepts_honest_witnesses() {
    assert!(check_product(FieldElement::from_u64(2), FieldElement::from_u64(3)).1);
    assert!(check_product(FieldElement::zero(), FieldElement::from_u64(7)).1);
    assert!(check_product(
        FieldElement::from_u64(MODULUS - 1),
        FieldElement::from_u64(MODULUS - 1)
    )
    .1);
}

#[test]
fn product_circuit_catches_forged_output() {
    let a = FieldElement::from_u64(2);
    let b = FieldElement::from_u64(3);
    let forged = FieldElement::from_u64(12);
    let (_run, vs) = forge_product(a, b, forged);
    assert!(vs.contains(&Violation::ConstraintNotSatisfied { gate: 0, row: 0, poly: 0 }));
}

#[test]
fn unconstrained_cell_accepts_any_value() {
    assert!(check_unconstrained(FieldElement::from_u64(0)).1);
    assert!(check_unconstrained(FieldElement::from_u64(0x950)).1);
    assert!(check_unconstrained(FieldElement::from_u64(MODULUS - 1)).1);
}

#[test]
fn running_sum_law_accepts_iff_sum_matches() {
    // Matching total, including one reached only through wraparound.
    let deposits = vec![
        FieldElement::from_u64(0x300),
        FieldElement::from_u64(0x400),
        FieldElement::from_u64(0x250),
    ];
    assert!(check_running_sum(&deposits, FieldElement::from_u64(0x950)).1);

    let sum = FieldElement::from_u64(0xC00);
    let target = FieldElement::from_u64(0x950);
    let fake = target.sub(sum);
    let deposits = vec![
        FieldElement::from_u64(0x300),
        FieldElement::from_u64(0x400),
        FieldElement::from_u64(0x500),
        fake,
    ];
    assert!(check_running_sum(&deposits, target).1);

    // A mismatched total is rejected.
    let deposits = vec![FieldElement::from_u64(300), FieldElement::from_u64(400)];
    assert!(!check_running_sum(&deposits, FieldElement::from_u64(999)).1);

    // The empty deposit list sums to zero.
    assert!(check_running_sum(&Vec::new(), FieldElement::zero()).1);
    assert!(!check_running_sum(&Vec::new(), FieldElement::from_u64(1)).1);
}
