use plonk_mock::assign::Assigner;
use plonk_mock::assign::MAX_K;
use plonk_mock::error::Error;
use plonk_mock::expression::Expression;
use plonk_mock::field::FieldElement;
use plonk_mock::layout::CellRef;
use plonk_mock::prover::UnassignedAt;
use plonk_mock::prover::Verifier;
use plonk_mock::prover::Violation;
use plonk_mock::system::ConstraintSystem;
use plonk_mock::value::Value;

fn fe(x: u64) -> FieldElement {
    FieldElement::from_u64(x)
}

fn single_instance(total: FieldElement) -> Vec<Vec<FieldElement>> {
    vec![vec![total]]
}

#[test]
fn builder_rejects_bad_references() {
    let mut cs = ConstraintSystem::new();
    let advice = cs.advice_column();
    let sel = cs.selector();
    // A gate whose expression names a column that does not exist.
    let bad = Expression::Advice { column: 7, rotation: 0 };
    assert_eq!(
        cs.create_gate("bad".to_string(), sel, vec![bad]),
        Err(Error::ColumnOutOfBounds)
    );
    // A lookup against a table column that does not exist.
    let input = Expression::advice(advice, 0);
    assert_eq!(
        cs.lookup(
            "bad".to_string(),
            input,
            plonk_mock::layout::TableColumn { index: 3 }
        ),
        Err(Error::ColumnOutOfBounds)
    );
    // A selector that does not exist.
    assert_eq!(
        cs.create_gate(
            "bad".to_string(),
            plonk_mock::layout::Selector { index: 9 },
            vec![Expression::advice(advice, 0)]
        ),
        Err(Error::SelectorOutOfBounds)
    );
    // Equality on a column that does not exist.
    assert_eq!(
        cs.enable_equality(plonk_mock::layout::AdviceColumn { index: 5 }),
        Err(Error::ColumnOutOfBounds)
    );
}

#[test]
fn assigner_rejects_out_of_shape_writes() {
    let mut cs = ConstraintSystem::new();
    let advice = cs.advice_column();
    let instance = cs.instance_column();
    cs.enable_equality(advice).unwrap();
    cs.enable_instance_equality(instance).unwrap();

    assert!(matches!(Assigner::new(&cs, MAX_K + 1), Err(Error::SizeTooLarge)));

    let mut asn = Assigner::new(&cs, 2).unwrap();
    // Four rows: relative row 4 is out of bounds.
    assert_eq!(
        asn.assign_advice(advice, 4, Value::known(fe(1))),
        Err(Error::RowOutOfBounds)
    );
    assert_eq!(
        asn.assign_advice(plonk_mock::layout::AdviceColumn { index: 1 }, 0, Value::known(fe(1))),
        Err(Error::ColumnOutOfBounds)
    );
    let cell = asn.assign_advice(advice, 0, Value::known(fe(1))).unwrap();
    assert_eq!(cell.column, 0);
    assert_eq!(cell.row, 0);
    // Regions compose sequentially: the next region starts past row 0.
    asn.begin_region();
    let cell2 = asn.assign_advice(advice, 0, Value::known(fe(2))).unwrap();
    assert_eq!(cell2.row, 1);
    // Selector index out of bounds.
    assert_eq!(
        asn.enable_selector(plonk_mock::layout::Selector { index: 0 }, 0),
        Err(Error::SelectorOutOfBounds)
    );
}

#[test]
fn copy_requires_equality_enabled() {
    let mut cs = ConstraintSystem::new();
    let advice = cs.advice_column();
    // Equality deliberately not enabled.
    let mut asn = Assigner::new(&cs, 2).unwrap();
    let cell = asn.assign_advice(advice, 0, Value::known(fe(1))).unwrap();
    assert_eq!(asn.copy_advice(cell, advice, 1), Err(Error::EqualityNotEnabled));

    let mut cs = ConstraintSystem::new();
    let advice = cs.advice_column();
    let instance = cs.instance_column();
    cs.enable_equality(advice).unwrap();
    // Instance equality deliberately not enabled.
    let mut asn = Assigner::new(&cs, 2).unwrap();
    let cell = asn.assign_advice(advice, 0, Value::known(fe(1))).unwrap();
    assert_eq!(
        asn.constrain_instance(cell, instance, 0),
        Err(Error::EqualityNotEnabled)
    );
}

#[test]
fn table_cells_are_populated_once() {
    let mut cs = ConstraintSystem::new();
    let table = cs.lookup_table_column();
    let mut asn = Assigner::new(&cs, 2).unwrap();
    asn.assign_table_cell(table, 0, fe(5)).unwrap();
    assert_eq!(asn.assign_table_cell(table, 0, fe(6)), Err(Error::TableCellReassigned));
    assert_eq!(asn.assign_table_cell(table, 4, fe(6)), Err(Error::RowOutOfBounds));
}

#[test]
fn run_rejects_mismatched_shapes() {
    let mut cs = ConstraintSystem::new();
    let _advice = cs.advice_column();
    let asn = Assigner::new(&cs, 2).unwrap();
    let table = asn.finish();
    // k does not match the table built with k = 2.
    assert_eq!(
        Verifier::run(3, cs, table, Vec::new()).err(),
        Some(Error::ShapeMismatch)
    );

    let mut cs = ConstraintSystem::new();
    let _advice = cs.advice_column();
    let asn = Assigner::new(&cs, 2).unwrap();
    let table = asn.finish();
    // An instance vector for a circuit with no instance column.
    assert_eq!(
        Verifier::run(2, cs, table, vec![vec![fe(1)]]).err(),
        Some(Error::ShapeMismatch)
    );
}

#[test]
fn run_rejects_out_of_range_rotation() {
    let mut cs = ConstraintSystem::new();
    let advice = cs.advice_column();
    let sel = cs.selector();
    // This gate reads the previous row; enabling it on row 0 resolves a
    // query at row -1.
    cs.create_gate(
        "prev".to_string(),
        sel,
        vec![Expression::advice(advice, -1)],
    )
    .unwrap();
    let mut asn = Assigner::new(&cs, 2).unwrap();
    asn.enable_selector(sel, 0).unwrap();
    let table = asn.finish();
    assert_eq!(
        Verifier::run(2, cs, table, Vec::new()).err(),
        Some(Error::RotationOutOfBounds)
    );
}

#[test]
fn gate_violation_reports_position() {
    // A gate `advice[0] - advice[1] = 0` with different values.
    let mut cs = ConstraintSystem::new();
    let advice = cs.advice_column();
    let sel = cs.selector();
    cs.create_gate(
        "eq".to_string(),
        sel,
        vec![Expression::advice(advice, 0).sub(Expression::advice(advice, 1))],
    )
    .unwrap();
    let mut asn = Assigner::new(&cs, 2).unwrap();
    asn.enable_selector(sel, 0).unwrap();
    asn.assign_advice(advice, 0, Value::known(fe(3))).unwrap();
    asn.assign_advice(advice, 1, Value::known(fe(4))).unwrap();
    let table = asn.finish();
    let prover = Verifier::run(2, cs, table, Vec::new()).unwrap();
    let vs = prover.verify().unwrap_err();
    assert_eq!(
        vs,
        vec![Violation::ConstraintNotSatisfied { gate: 0, row: 0, poly: 0 }]
    );
}

#[test]
fn gate_on_unassigned_cell_reports_it() {
    let mut cs = ConstraintSystem::new();
    let advice = cs.advice_column();
    let sel = cs.selector();
    cs.create_gate("id".to_string(), sel, vec![Expression::advice(advice, 0)])
        .unwrap();
    let mut asn = Assigner::new(&cs, 2).unwrap();
    asn.enable_selector(sel, 1).unwrap();
    let table = asn.finish();
    let prover = Verifier::run(2, cs, table, Vec::new()).unwrap();
    let vs = prover.verify().unwrap_err();
    assert_eq!(
        vs,
        vec![Violation::UnassignedCell {
            at: UnassignedAt::Gate { gate: 0, row: 1, poly: 0 }
        }]
    );
}

#[test]
fn copy_transitivity_flags_exactly_one_pair() {
    // A unioned with B, B unioned with C; only C differs.  Exactly one
    // violation, and it references the pair that actually differs.
    let mut cs = ConstraintSystem::new();
    let advice = cs.advice_column();
    cs.enable_equality(advice).unwrap();
    let mut asn = Assigner::new(&cs, 2).unwrap();
    let a = asn.assign_advice(advice, 0, Value::known(fe(5))).unwrap();
    let b = asn.copy_advice(a, advice, 1).unwrap();
    let c = asn.copy_advice(b, advice, 2).unwrap();
    let mut prover = Verifier::run(2, cs, asn.finish(), Vec::new()).unwrap();
    assert!(prover.verify().is_ok());
    // Forge C alone.
    prover.override_advice(c.column, c.row, Value::known(fe(7))).unwrap();
    let vs = prover.verify().unwrap_err();
    assert_eq!(
        vs,
        vec![Violation::CopyConstraintViolation {
            a: CellRef::Advice { column: 0, row: 0 },
            b: CellRef::Advice { column: 0, row: 2 },
        }]
    );
}

#[test]
fn unassigned_copy_class_is_reported() {
    let mut cs = ConstraintSystem::new();
    let advice = cs.advice_column();
    cs.enable_equality(advice).unwrap();
    let mut asn = Assigner::new(&cs, 2).unwrap();
    let a = asn.assign_advice(advice, 0, Value::unknown()).unwrap();
    asn.copy_advice(a, advice, 1).unwrap();
    let prover = Verifier::run(2, cs, asn.finish(), Vec::new()).unwrap();
    let vs = prover.verify().unwrap_err();
    assert_eq!(
        vs,
        vec![Violation::UnassignedCell {
            at: UnassignedAt::CopyClass { cell: CellRef::Advice { column: 0, row: 0 } }
        }]
    );
}

#[test]
fn instance_binding_mismatch_is_public_input_mismatch() {
    let mut cs = ConstraintSystem::new();
    let advice = cs.advice_column();
    let instance = cs.instance_column();
    cs.enable_equality(advice).unwrap();
    cs.enable_instance_equality(instance).unwrap();
    let mut asn = Assigner::new(&cs, 2).unwrap();
    let cell = asn.assign_advice(advice, 0, Value::known(fe(5))).unwrap();
    asn.constrain_instance(cell, instance, 0).unwrap();
    let prover = Verifier::run(2, cs, asn.finish(), single_instance(fe(9))).unwrap();
    let vs = prover.verify().unwrap_err();
    assert_eq!(vs.len(), 1);
    assert!(matches!(vs[0], Violation::PublicInputMismatch { .. }));
}

#[test]
fn instance_values_pad_with_zero() {
    // Binding a cell holding zero to an instance position past the
    // supplied prefix succeeds: the padding value is zero.
    let mut cs = ConstraintSystem::new();
    let advice = cs.advice_column();
    let instance = cs.instance_column();
    cs.enable_equality(advice).unwrap();
    cs.enable_instance_equality(instance).unwrap();
    let mut asn = Assigner::new(&cs, 2).unwrap();
    let cell = asn.assign_advice(advice, 0, Value::known(fe(0))).unwrap();
    asn.constrain_instance(cell, instance, 3).unwrap();
    let prover = Verifier::run(2, cs, asn.finish(), vec![vec![fe(7)]]).unwrap();
    assert!(prover.verify().is_ok());
}

#[test]
fn lookup_membership_ignores_row_alignment() {
    // The value sits at table row 3; the advice rows that equal it are
    // rows 0 and 1.  Membership must not depend on row alignment.
    let mut cs = ConstraintSystem::new();
    let advice = cs.advice_column();
    let table_col = cs.lookup_table_column();
    cs.lookup(
        "member".to_string(),
        Expression::advice(advice, 0),
        table_col,
    )
    .unwrap();
    let mut asn = Assigner::new(&cs, 2).unwrap();
    asn.assign_table_cell(table_col, 3, fe(42)).unwrap();
    asn.assign_table_cell(table_col, 0, fe(0)).unwrap();
    for row in 0..4 {
        let v = if row < 2 { fe(42) } else { fe(0) };
        asn.assign_advice(advice, row, Value::known(v)).unwrap();
    }
    let prover = Verifier::run(2, cs, asn.finish(), Vec::new()).unwrap();
    assert!(prover.verify().is_ok());
}

#[test]
fn lookup_absent_value_fails_per_row() {
    let mut cs = ConstraintSystem::new();
    let advice = cs.advice_column();
    let table_col = cs.lookup_table_column();
    cs.lookup(
        "member".to_string(),
        Expression::advice(advice, 0),
        table_col,
    )
    .unwrap();
    let mut asn = Assigner::new(&cs, 2).unwrap();
    asn.assign_table_cell(table_col, 0, fe(1)).unwrap();
    asn.assign_advice(advice, 0, Value::known(fe(1))).unwrap();
    asn.assign_advice(advice, 1, Value::known(fe(2))).unwrap();
    asn.assign_advice(advice, 2, Value::known(fe(1))).unwrap();
    asn.assign_advice(advice, 3, Value::known(fe(1))).unwrap();
    let prover = Verifier::run(2, cs, asn.finish(), Vec::new()).unwrap();
    let vs = prover.verify().unwrap_err();
    assert_eq!(vs, vec![Violation::LookupViolation { lookup: 0, row: 1 }]);
}

#[test]
fn violations_accumulate_across_checks() {
    // One failing gate and one failing lookup: both are reported.
    let mut cs = ConstraintSystem::new();
    let advice = cs.advice_column();
    let sel = cs.selector();
    cs.create_gate("zero".to_string(), sel, vec![Expression::advice(advice, 0)])
        .unwrap();
    let table_col = cs.lookup_table_column();
    cs.lookup(
        "member".to_string(),
        Expression::advice(advice, 0),
        table_col,
    )
    .unwrap();
    let mut asn = Assigner::new(&cs, 2).unwrap();
    asn.assign_table_cell(table_col, 0, fe(0)).unwrap();
    asn.enable_selector(sel, 0).unwrap();
    asn.assign_advice(advice, 0, Value::known(fe(9))).unwrap();
    for row in 1..4 {
        asn.assign_advice(advice, row, Value::known(fe(0))).unwrap();
    }
    let prover = Verifier::run(2, cs, asn.finish(), Vec::new()).unwrap();
    let vs = prover.verify().unwrap_err();
    assert_eq!(
        vs,
        vec![
            Violation::ConstraintNotSatisfied { gate: 0, row: 0, poly: 0 },
            Violation::LookupViolation { lookup: 0, row: 0 },
        ]
    );
}

#[test]
fn selector_query_reads_one_and_zero() {
    // Gate: selector_b (as an expression) must be zero wherever
    // selector_a is enabled.
    let mut cs = ConstraintSystem::new();
    let sel_a = cs.selector();
    let sel_b = cs.selector();
    cs.create_gate("excl".to_string(), sel_a, vec![Expression::selector(sel_b)])
        .unwrap();
    let mut asn = Assigner::new(&cs, 2).unwrap();
    asn.enable_selector(sel_a, 0).unwrap();
    asn.enable_selector(sel_a, 1).unwrap();
    asn.enable_selector(sel_b, 1).unwrap();
    let prover = Verifier::run(2, cs, asn.finish(), Vec::new()).unwrap();
    let vs = prover.verify().unwrap_err();
    assert_eq!(
        vs,
        vec![Violation::ConstraintNotSatisfied { gate: 0, row: 1, poly: 0 }]
    );
}

#[test]
fn override_advice_checks_bounds() {
    let mut cs = ConstraintSystem::new();
    let _advice = cs.advice_column();
    let asn = Assigner::new(&cs, 2).unwrap();
    let mut prover = Verifier::run(2, cs, asn.finish(), Vec::new()).unwrap();
    assert_eq!(
        prover.override_advice(1, 0, Value::known(fe(1))),
        Err(Error::ColumnOutOfBounds)
    );
    assert_eq!(
        prover.override_advice(0, 4, Value::known(fe(1))),
        Err(Error::RowOutOfBounds)
    );
    assert_eq!(prover.override_advice(0, 3, Value::known(fe(1))), Ok(()));
}

#[test]
fn instance_query_in_gate_reads_public_values() {
    // A gate demanding advice[r] - instance[r] = 0 on two rows; the
    // second instance position is past the supplied prefix and so reads
    // as zero.
    let mut cs = ConstraintSystem::new();
    let advice = cs.advice_column();
    let instance = cs.instance_column();
    let sel = cs.selector();
    cs.create_gate(
        "match public".to_string(),
        sel,
        vec![Expression::advice(advice, 0).sub(Expression::instance(instance, 0))],
    )
    .unwrap();
    let mut asn = Assigner::new(&cs, 2).unwrap();
    asn.enable_selector(sel, 0).unwrap();
    asn.enable_selector(sel, 1).unwrap();
    asn.assign_advice(advice, 0, Value::known(fe(5))).unwrap();
    asn.assign_advice(advice, 1, Value::known(fe(0))).unwrap();
    let prover = Verifier::run(2, cs, asn.finish(), vec![vec![fe(5)]]).unwrap();
    assert!(prover.verify().is_ok());

    // A wrong public value makes the same witness fail.
    let mut cs = ConstraintSystem::new();
    let advice = cs.advice_column();
    let instance = cs.instance_column();
    let sel = cs.selector();
    cs.create_gate(
        "match public".to_string(),
        sel,
        vec![Expression::advice(advice, 0).sub(Expression::instance(instance, 0))],
    )
    .unwrap();
    let mut asn = Assigner::new(&cs, 2).unwrap();
    asn.enable_selector(sel, 0).unwrap();
    asn.assign_advice(advice, 0, Value::known(fe(5))).unwrap();
    let prover = Verifier::run(2, cs, asn.finish(), vec![vec![fe(6)]]).unwrap();
    assert_eq!(
        prover.verify().unwrap_err(),
        vec![Violation::ConstraintNotSatisfied { gate: 0, row: 0, poly: 0 }]
    );
}

#[test]
fn run_rejects_oversized_exponent() {
    let mut cs = ConstraintSystem::new();
    let _advice = cs.advice_column();
    let asn = Assigner::new(&cs, 2).unwrap();
    let table = asn.finish();
    assert_eq!(
        Verifier::run(MAX_K + 1, cs, table, Vec::new()).err(),
        Some(Error::SizeTooLarge)
    );
}
