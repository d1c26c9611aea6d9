use plonk_mock::assign::Assigner;
use plonk_mock::casino::casino;
use plonk_mock::casino::casino1;
use plonk_mock::casino::constrained::CasinoCircuitConstrained;
use plonk_mock::casino::casino2;
use plonk_mock::casino::single_instance;
use plonk_mock::field::FieldElement;
use plonk_mock::merkle::merke_nohash1;
use plonk_mock::merkle::merke_nohash2;
use plonk_mock::merkle::merke_nohash3;
use plonk_mock::mul::multiplication;
use plonk_mock::non_deterministic::NonDeterministicCircuit;
use plonk_mock::prover::Verifier;
use plonk_mock::prover::Violation;
use plonk_mock::simple_circuit::ChipSimple;
use plonk_mock::simple_circuit::SimpleCircuit;
use plonk_mock::square_root::square_root;
use plonk_mock::system::ConstraintSystem;
use plonk_mock::underconstrained::UnderconstrainedCircuit;
use plonk_mock::value::Value;

fn fe(x: u64) -> FieldElement {
    FieldElement::from_u64(x)
}

fn known(x: u64) -> Value {
    Value::known(fe(x))
}

fn run_casino2(deposits: Vec<Value>, total: FieldElement) -> Result<(), Vec<Violation>> {
    let circuit = casino2::CasinoCircuit { deposits, total: Value::known(total) };
    let mut cs = ConstraintSystem::new();
    let config = casino2::CasinoCircuit::configure(&mut cs).unwrap();
    let mut asn = Assigner::new(&cs, 10).unwrap();
    circuit.synthesize(&config, &mut asn).unwrap();
    let prover = Verifier::run(10, cs, asn.finish(), single_instance(total)).unwrap();
    prover.verify()
}

#[test]
fn casino_demonstration_outcomes() {
    assert_eq!(casino().unwrap(), vec![true, true, false, false, true]);
}

#[test]
fn multiplication_demonstration_outcomes() {
    assert_eq!(multiplication().unwrap(), vec![true, false, true, false, true]);
}

#[test]
fn square_root_demonstration_outcomes() {
    assert_eq!(square_root().unwrap(), vec![true, false, true]);
}

#[test]
fn merkle_demonstration_outcomes() {
    assert_eq!(merke_nohash1().unwrap(), vec![true, true]);
    assert_eq!(merke_nohash2().unwrap(), vec![true, true]);
    assert_eq!(merke_nohash3().unwrap(), vec![true, true]);
}

// Scenario A: deposits whose sum equals the instance target succeed with
// the running-sum circuit.  The deposits are chosen to really sum to the
// target 0x950 (0x300 + 0x400 + 0x250).
#[test]
fn running_sum_accepts_matching_total() {
    let total = fe(0x950);
    let deposits = vec![known(0x300), known(0x400), known(0x250)];
    let circuit = casino1::CasinoCircuit { deposits, total: Value::known(total) };
    let mut cs = ConstraintSystem::new();
    let config = casino1::CasinoCircuit::configure(&mut cs).unwrap();
    let mut asn = Assigner::new(&cs, 4).unwrap();
    circuit.synthesize(&config, &mut asn).unwrap();
    let prover = Verifier::run(4, cs, asn.finish(), single_instance(total)).unwrap();
    assert!(prover.verify().is_ok());
}

// Scenario B: an extra synthetic deposit equal to `target - sum (mod p)`
// makes any target reachable; when the sum already equals the target the
// synthetic deposit is zero and the run still succeeds.
#[test]
fn running_sum_accepts_wraparound_deposit() {
    let total = fe(0x950);
    let d = [fe(0x300), fe(0x400), fe(0x500)];
    let sum = d[0].add(d[1]).add(d[2]);
    let fake = total.sub(sum);
    let deposits = vec![
        Value::known(d[0]),
        Value::known(d[1]),
        Value::known(d[2]),
        Value::known(fake),
    ];
    let circuit = casino1::CasinoCircuit { deposits, total: Value::known(total) };
    let mut cs = ConstraintSystem::new();
    let config = casino1::CasinoCircuit::configure(&mut cs).unwrap();
    let mut asn = Assigner::new(&cs, 4).unwrap();
    circuit.synthesize(&config, &mut asn).unwrap();
    let prover = Verifier::run(4, cs, asn.finish(), single_instance(total)).unwrap();
    assert!(prover.verify().is_ok());

    // When the sum already equals the target, the synthetic deposit is 0.
    let exact = fe(0xC00);
    let fake2 = exact.sub(sum);
    assert_eq!(fake2.to_u64(), 0);
}

// Scenario C, part one: a lookup table of [0, 1000) bound to the deposit
// column; deposits [700, 800, 884] sum to 2384 == 0x950 and succeed.
#[test]
fn range_checked_sum_accepts_honest_deposits() {
    let deposits = vec![known(700), known(800), known(884)];
    assert!(run_casino2(deposits, fe(0x950)).is_ok());
}

// Scenario C, part two: deposits [300, 400, 500] with the same target
// 2384 fail with ConstraintNotSatisfied — the sum gate, not the copy
// check, catches the shortfall.
#[test]
fn range_checked_sum_rejects_wrong_total_with_gate_violation() {
    let deposits = vec![known(300), known(400), known(500)];
    let vs = run_casino2(deposits, fe(0x950)).unwrap_err();
    assert!(vs
        .iter()
        .any(|v| matches!(v, Violation::ConstraintNotSatisfied { .. })));
    assert!(!vs.iter().any(|v| matches!(v, Violation::LookupViolation { .. })));
}

// Scenario C, part three: the field-wraparound forgery against a nonzero
// shortfall fails the lookup even though the running-sum gate alone would
// have accepted it.
#[test]
fn range_checked_sum_rejects_wraparound_deposit_with_lookup_violation() {
    let total = fe(0x950);
    let d = [fe(300), fe(400), fe(500)];
    let sum = d[0].add(d[1]).add(d[2]);
    let fake = total.sub(sum);
    let deposits = vec![
        Value::known(d[0]),
        Value::known(d[1]),
        Value::known(d[2]),
        Value::known(fake),
    ];
    let vs = run_casino2(deposits, total).unwrap_err();
    assert!(vs.iter().any(|v| matches!(v, Violation::LookupViolation { .. })));
    assert!(!vs
        .iter()
        .any(|v| matches!(v, Violation::ConstraintNotSatisfied { .. })));
}

#[test]
fn simple_circuit_checks_sum_and_range() {
    let circuit = SimpleCircuit { a: known(2), b: known(3) };
    let mut cs = ConstraintSystem::new();
    let config = SimpleCircuit::configure(&mut cs).unwrap();
    let mut asn = Assigner::new(&cs, 4).unwrap();
    circuit.synthesize(&config, &mut asn).unwrap();
    let prover = Verifier::run(4, cs, asn.finish(), single_instance(fe(5))).unwrap();
    assert!(prover.verify().is_ok());

    // An out-of-range summand fails the lookup.
    let circuit = SimpleCircuit { a: known(20), b: known(3) };
    let mut cs = ConstraintSystem::new();
    let config = SimpleCircuit::configure(&mut cs).unwrap();
    let mut asn = Assigner::new(&cs, 4).unwrap();
    circuit.synthesize(&config, &mut asn).unwrap();
    let prover = Verifier::run(4, cs, asn.finish(), single_instance(fe(23))).unwrap();
    let vs = prover.verify().unwrap_err();
    assert!(vs.iter().any(|v| matches!(v, Violation::LookupViolation { .. })));

    let _chip = ChipSimple::construct();
}

#[test]
fn non_deterministic_circuit_accepts_both_roots() {
    for root in [fe(3), FieldElement::zero().sub(fe(3))] {
        let circuit = NonDeterministicCircuit { a: Value::known(root), b: known(9) };
        let mut cs = ConstraintSystem::new();
        let config = NonDeterministicCircuit::configure(&mut cs).unwrap();
        let mut asn = Assigner::new(&cs, 3).unwrap();
        circuit.synthesize(&config, &mut asn).unwrap();
        let prover = Verifier::run(3, cs, asn.finish(), single_instance(fe(9))).unwrap();
        assert!(prover.verify().is_ok());
    }
}

#[test]
fn underconstrained_circuit_checks_first_rows_only() {
    let circuit = UnderconstrainedCircuit { a: known(4), b: known(4) };
    let mut cs = ConstraintSystem::new();
    let config = UnderconstrainedCircuit::configure(&mut cs).unwrap();
    let mut asn = Assigner::new(&cs, 4).unwrap();
    circuit.synthesize(&config, &mut asn).unwrap();
    let prover = Verifier::run(4, cs, asn.finish(), single_instance(fe(8))).unwrap();
    assert!(prover.verify().is_ok());
}

#[test]
fn constrained_casino_checks_total_against_public_input() {
    // Honest: the deposits sum to the public total.
    let deposits = vec![known(0x300), known(0x400), known(0x250)];
    let circuit = CasinoCircuitConstrained { deposits };
    let mut cs = ConstraintSystem::new();
    let config = CasinoCircuitConstrained::configure(&mut cs).unwrap();
    let mut asn = Assigner::new(&cs, 4).unwrap();
    circuit.synthesize(&config, &mut asn).unwrap();
    let prover = Verifier::run(4, cs, asn.finish(), single_instance(fe(0x950))).unwrap();
    assert!(prover.verify().is_ok());

    // A different public total is caught at the instance binding.
    let deposits = vec![known(0x300), known(0x400), known(0x250)];
    let circuit = CasinoCircuitConstrained { deposits };
    let mut cs = ConstraintSystem::new();
    let config = CasinoCircuitConstrained::configure(&mut cs).unwrap();
    let mut asn = Assigner::new(&cs, 4).unwrap();
    circuit.synthesize(&config, &mut asn).unwrap();
    let prover = Verifier::run(4, cs, asn.finish(), single_instance(fe(0x999))).unwrap();
    let vs = prover.verify().unwrap_err();
    assert!(vs.iter().any(|v| matches!(v, Violation::PublicInputMismatch { .. })));
}
