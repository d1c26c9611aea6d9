//! Laws of the verifier, stated and proved once for every circuit.
//!
//! Each item here is a property a caller may rely on without rebuilding
//! the argument: what an unconstrained witness can get away with, how
//! copy-constraint classes close transitively, and that lookup membership
//! ignores row alignment.

use vstd::prelude::*;
use vstd::string::StringExecFns;

use crate::assign::Assigner;
use crate::assign::InstanceBinding;
use crate::expression::expr_rotations_ok;
use crate::expression::expr_wf;
use crate::expression::Expression;
use crate::field::lemma_sub_mod_zero_iff;
use crate::field::FieldElement;
use crate::field::MODULUS;
use crate::layout::Cell;
use crate::layout::CellRef;
use crate::permutation::lemma_related_refl;
use crate::permutation::lemma_related_respects;
use crate::permutation::lemma_related_trans;
use crate::permutation::related;
use crate::prover::Verifier;
use crate::prover::Violation;
use crate::system::ConstraintSystem;
use crate::value::Value;

verus! {

/// With no gates, no lookups and no copy constraints, every witness
/// satisfies the circuit: any value placed in any cell — a forged total
/// included — is accepted, because nothing constrains it.
pub proof fn lemma_unconstrained_accepts(v: Verifier)
    requires
        v.cs.gates@.len() == 0,
        v.cs.lookups@.len() == 0,
        v.table.copies@.len() == 0,
        v.table.bindings@.len() == 0,
    ensures
        v.ok(),
{
    assert(v.pair_ids() =~= Seq::<(nat, nat)>::empty());
    assert forall|x: nat, y: nat| #[trigger] related(v.pair_ids(), x, y) implies v.ids_agree(
        x,
        y,
    ) by {
        let f = |id: nat| id;
        lemma_related_respects(v.pair_ids(), f, x, y);
    }
}

/// Copy constraints close transitively: if `x` is unioned with `y` and
/// `y` with `z`, then `x` and `z` are checked against each other even
/// without a direct constraint — when both carry values and they differ,
/// the run's copy check fails.
pub proof fn lemma_copy_transitivity(v: Verifier, x: nat, y: nat, z: nat)
    requires
        related(v.pair_ids(), x, y),
        related(v.pair_ids(), y, z),
        !v.ids_agree(x, z),
    ensures
        related(v.pair_ids(), x, z),
        !v.copy_values_ok(),
{
    lemma_related_trans(v.pair_ids(), x, y, z);
}

/// Lookup membership ignores row alignment: a value equal to some entry
/// of the table column at any other row passes the lookup at this row.
pub proof fn lemma_lookup_row_independent(v: Verifier, l: int, r: int, r2: int, x: int)
    requires
        0 <= l < v.cs.lookups@.len(),
        0 <= r < v.rows(),
        0 <= r2 < v.rows(),
        v.eval(v.cs.lookups@[l].input, r) == Some(x),
        v.table_at(v.cs.lookups@[l].table as int, r2) == Some(x),
    ensures
        v.lookup_sat_at(l, r),
        !v.lookup_missing_at(l, r),
{
    assert(v.table_contains(v.cs.lookups@[l].table as int, x));
}

/// A value absent from the whole table column fails the lookup at every
/// row where it appears, no matter how the rest of the circuit fares.
pub proof fn lemma_lookup_absent_rejects(v: Verifier, l: int, r: int, x: int)
    requires
        0 <= l < v.cs.lookups@.len(),
        0 <= r < v.rows(),
        v.eval(v.cs.lookups@[l].input, r) == Some(x),
        forall|rr: int|
            0 <= rr < v.rows() ==> #[trigger] v.table_at(v.cs.lookups@[l].table as int, rr)
                != Some(x),
    ensures
        v.lookup_missing_at(l, r),
        !v.lookups_ok(),
{
    assert(!v.table_contains(v.cs.lookups@[l].table as int, x));
    assert(!v.lookup_sat_at(l, r));
}


/// The product gate's polynomial: `advice[0] * advice[1] - advice[2]`,
/// read at rotations 0, 1 and 2.
pub open spec fn product_poly() -> Expression {
    Expression::Sum(
        Box::new(
            Expression::Product(
                Box::new(Expression::Advice { column: 0, rotation: 0 }),
                Box::new(Expression::Advice { column: 0, rotation: 1 }),
            ),
        ),
        Box::new(Expression::Negate(Box::new(Expression::Advice { column: 0, rotation: 2 }))),
    )
}

/// The fully pinned product run: one advice column holding `a`, `b` and
/// `c` on its first three rows, the product gate active on row 0, `c`
/// bound to public input 0, and nothing else anywhere.
pub open spec fn product_run_is(
    v: Verifier,
    a: FieldElement,
    b: FieldElement,
    cell2: FieldElement,
    public: FieldElement,
) -> bool {
    &&& v.wf()
    &&& v.rows() == 16
    &&& v.num_advice() == 1
    &&& v.num_instance() == 1
    &&& v.cs.gates@.len() == 1
    &&& v.cs.gates@[0].selector == 0
    &&& v.cs.gates@[0].polys@.len() == 1
    &&& v.cs.gates@[0].polys@[0] == product_poly()
    &&& v.cs.lookups@.len() == 0
    &&& v.table.selectors@.len() == 1
    &&& v.table.selectors@[0]@ =~= Seq::new(16, |r: int| false).update(0, true)
    &&& v.table.advice@[0]@ =~= Seq::new(16, |r: int| Value::Unknown).update(
        0,
        Value::Known(a),
    ).update(1, Value::Known(b)).update(2, Value::Known(cell2))
    &&& v.table.copies@.len() == 0
    &&& v.table.bindings@ =~= Seq::empty().push(
        InstanceBinding { cell: Cell { column: 0, row: 2 }, column: 0, row: 0 },
    )
    &&& v.instances@.len() == 1
    &&& v.instances@[0]@ =~= Seq::empty().push(public)
}

/// An identity wrapper naming the run a law's `exists` clause speaks of;
/// it carries the witness value so the clause has a usable trigger.
pub open spec fn product_run_witness(v: Verifier, c: FieldElement) -> Verifier {
    v
}

/// Builds the product circuit and a witness for it: one advice column
/// holding `a`, `b` and `c`, a gate demanding `a * b - c = 0` on the
/// first row, and `c` bound to the public input.
pub fn product_run(a: FieldElement, b: FieldElement, c: FieldElement) -> (v: Verifier)
    ensures
        product_run_is(v, a, b, c, c),
{
    proof {
        vstd::arithmetic::power2::lemma2_to64();
    }
    let mut cs = ConstraintSystem::new();
    let advice = cs.advice_column();
    let instance = cs.instance_column();
    match cs.enable_equality(advice) {
        Ok(()) => {},
        Err(_) => {
            proof {
                assert(false);
            }
        },
    }
    match cs.enable_instance_equality(instance) {
        Ok(()) => {},
        Err(_) => {
            proof {
                assert(false);
            }
        },
    }
    let sel = cs.selector();
    let ea = Expression::advice(advice, 0);
    let eb = Expression::advice(advice, 1);
    let ec = Expression::advice(advice, 2);
    let poly = ea.mul(eb).sub(ec);
    proof {
        assert(poly == product_poly());
        assert(expr_wf(Expression::Advice { column: 0, rotation: 0 }, 1, 1, 1));
        assert(expr_wf(Expression::Advice { column: 0, rotation: 1 }, 1, 1, 1));
        assert(expr_wf(Expression::Advice { column: 0, rotation: 2 }, 1, 1, 1));
        assert(expr_wf(
            Expression::Product(
                Box::new(Expression::Advice { column: 0, rotation: 0 }),
                Box::new(Expression::Advice { column: 0, rotation: 1 }),
            ),
            1,
            1,
            1,
        ));
        assert(expr_wf(
            Expression::Negate(Box::new(Expression::Advice { column: 0, rotation: 2 })),
            1,
            1,
            1,
        ));
        assert(expr_wf(product_poly(), 1, 1, 1));
    }
    let mut polys: Vec<Expression> = Vec::new();
    polys.push(poly);
    match cs.create_gate(String::from_str("product"), sel, polys) {
        Ok(()) => {},
        Err(_) => {
            proof {
                assert(false);
            }
        },
    }
    let mut asn = match Assigner::new(&cs, 4) {
        Ok(x) => x,
        Err(_) => {
            proof {
                assert(false);
            }
            unreached()
        },
    };
    match asn.enable_selector(sel, 0) {
        Ok(()) => {},
        Err(_) => {
            proof {
                assert(false);
            }
        },
    }
    match asn.assign_advice(advice, 0, Value::known(a)) {
        Ok(_) => {},
        Err(_) => {
            proof {
                assert(false);
            }
        },
    }
    match asn.assign_advice(advice, 1, Value::known(b)) {
        Ok(_) => {},
        Err(_) => {
            proof {
                assert(false);
            }
        },
    }
    let cell_c = match asn.assign_advice(advice, 2, Value::known(c)) {
        Ok(cell) => cell,
        Err(_) => {
            proof {
                assert(false);
            }
            Cell { column: 0, row: 2 }
        },
    };
    match asn.constrain_instance(cell_c, instance, 0) {
        Ok(()) => {},
        Err(_) => {
            proof {
                assert(false);
            }
        },
    }
    let table = asn.finish();
    let mut public: Vec<FieldElement> = Vec::new();
    public.push(c);
    let mut instances: Vec<Vec<FieldElement>> = Vec::new();
    instances.push(public);
    let ghost gcs = cs;
    let ghost gtable = table;
    let ghost ginst = instances;
    proof {
        let gv = Verifier { k: 4, cs: gcs, table: gtable, instances: ginst };
        assert(gv.table.rows == 16);
        assert(gv.cs.gates@[0].selector == 0);
        assert(gv.table.selectors@[0]@ == Seq::new(16, |x: int| false).update(0, true));
        assert(gv.table.advice@[0]@ == Seq::new(16, |x: int| Value::Unknown).update(
            0,
            Value::Known(a),
        ).update(1, Value::Known(b)).update(2, Value::Known(c)));
        assert forall|cc: int| 0 <= cc < gv.instances@.len() implies (
        #[trigger] gv.instances@[cc])@.len() <= gv.table.rows by {
            assert(cc == 0);
        }
        assert((gv.num_advice() + gv.num_instance()) * gv.rows() == 32) by (nonlinear_arith)
            requires
                gv.num_advice() == 1,
                gv.num_instance() == 1,
                gv.rows() == 16,
        ;
        assert(gv.num_cells() == 32);
        assert(gv.shape_fits());
        assert forall|g: int, r: int, i: int|
            0 <= g < gv.cs.gates@.len() && 0 <= r < gv.table.rows && 0 <= i
                < gv.cs.gates@[g].polys@.len() && gv.table.selectors@[gv.cs.gates@[g].selector as int]@[r] implies #[trigger] expr_rotations_ok(
            gv.cs.gates@[g].polys@[i],
            r,
            gv.table.rows as int,
        ) by {
            if r != 0 {
                assert(gv.table.selectors@[0]@[r] == false);
            }
            assert(r == 0);
            assert(expr_rotations_ok(Expression::Advice { column: 0, rotation: 0 }, 0, 16));
            assert(expr_rotations_ok(Expression::Advice { column: 0, rotation: 1 }, 0, 16));
            assert(expr_rotations_ok(Expression::Advice { column: 0, rotation: 2 }, 0, 16));
            assert(expr_rotations_ok(
                Expression::Product(
                    Box::new(Expression::Advice { column: 0, rotation: 0 }),
                    Box::new(Expression::Advice { column: 0, rotation: 1 }),
                ),
                0,
                16,
            ));
            assert(expr_rotations_ok(
                Expression::Negate(Box::new(Expression::Advice { column: 0, rotation: 2 })),
                0,
                16,
            ));
            assert(expr_rotations_ok(product_poly(), 0, 16));
        }
        assert(Verifier::accepts(4, gcs, gtable, ginst));
    }
    match Verifier::run(4, cs, table, instances) {
        Ok(v) => v,
        Err(_) => {
            proof {
                assert(false);
            }
            unreached()
        },
    }
}

/// The value of the product gate polynomial at row 0, for any values
/// `a`, `b`, `c` placed on the first three rows: the reduced
/// `a * b - c`.
pub proof fn lemma_product_gate_value(v: Verifier, a: FieldElement, b: FieldElement, c: FieldElement)
    requires
        v.rows() == 16,
        v.table.advice@[0]@ =~= Seq::new(16, |r: int| Value::Unknown).update(
            0,
            Value::Known(a),
        ).update(1, Value::Known(b)).update(2, Value::Known(c)),
    ensures
        v.eval(product_poly(), 0) == Some(
            ((a.as_int() * b.as_int()) % (MODULUS as int) + (0 - c.as_int()) % (
            MODULUS as int)) % (MODULUS as int),
        ),
{
    assert(v.adv_at(0, 0) == Some(a.as_int()));
    assert(v.adv_at(0, 1) == Some(b.as_int()));
    assert(v.adv_at(0, 2) == Some(c.as_int()));
    assert(v.eval(Expression::Advice { column: 0, rotation: 0 }, 0) == Some(a.as_int()));
    assert(v.eval(Expression::Advice { column: 0, rotation: 1 }, 0) == Some(b.as_int()));
    assert(v.eval(Expression::Advice { column: 0, rotation: 2 }, 0) == Some(c.as_int()));
    assert(v.eval(
        Expression::Product(
            Box::new(Expression::Advice { column: 0, rotation: 0 }),
            Box::new(Expression::Advice { column: 0, rotation: 1 }),
        ),
        0,
    ) == Some((a.as_int() * b.as_int()) % (MODULUS as int)));
    assert(v.eval(
        Expression::Negate(Box::new(Expression::Advice { column: 0, rotation: 2 })),
        0,
    ) == Some((0 - c.as_int()) % (MODULUS as int)));
}

/// The product circuit's copy check passes: the output cell and the
/// public input hold the same value `c`.
pub proof fn lemma_product_copies_ok(v: Verifier, c: FieldElement)
    requires
        v.wf(),
        v.rows() == 16,
        v.num_advice() == 1,
        v.num_instance() == 1,
        v.table.copies@.len() == 0,
        v.table.bindings@ =~= Seq::empty().push(
            InstanceBinding { cell: Cell { column: 0, row: 2 }, column: 0, row: 0 },
        ),
        v.instances@.len() == 1,
        v.instances@[0]@ =~= Seq::empty().push(c),
        v.table.advice@[0]@[2] == Value::Known(c),
    ensures
        v.copy_values_ok(),
        v.copy_assigned_ok(),
{
    assert(v.pair_ids() =~= Seq::empty().push((2nat, 16nat)));
    assert(v.id_val(2) == Some(c.as_int()));
    assert(v.id_val(16) == Some(v.inst_at(0, 0)));
    assert(v.inst_at(0, 0) == c.as_int());
    assert forall|x: nat, y: nat| #[trigger] related(v.pair_ids(), x, y) implies v.ids_agree(
        x,
        y,
    ) by {
        crate::permutation::lemma_related_one_pair(v.pair_ids(), x, y);
        if x == y {
        } else {
            assert(x == 2 || x == 16);
            assert(y == 2 || y == 16);
        }
    }
    assert forall|i: int| 0 <= i < v.pair_ids().len() implies #[trigger] v.pair_reaches_value(
        i,
    ) by {
        lemma_related_refl(v.pair_ids(), 2nat);
        assert(related(v.pair_ids(), v.pair_ids()[i].0, 2nat) && v.id_val(2) is Some);
    }
}

/// For all field elements `a` and `b` with `c = a * b`, the product
/// circuit — a gate enforcing `a * b - c = 0` and `c` copied to the
/// public input — verifies successfully.  The returned run is the pinned
/// product run itself, so the claim is about a real verification, not a
/// constant.
pub fn check_product(a: FieldElement, b: FieldElement) -> (r: (Verifier, bool))
    ensures
        r.1,
        r.0.ok(),
        exists|c: FieldElement|
            c.as_int() == (a.as_int() * b.as_int()) % (MODULUS as int) && product_run_is(
                #[trigger] product_run_witness(r.0, c),
                a,
                b,
                c,
                c,
            ),
{
    let c = a.mul(b);
    c.bounds();
    let v = product_run(a, b, c);
    proof {
        lemma_product_gate_value(v, a, b, c);
        lemma_sub_mod_zero_iff((a.as_int() * b.as_int()) % (MODULUS as int), c.as_int());
        assert forall|g: int, r: int, i: int|
            0 <= g < v.cs.gates@.len() && 0 <= r < v.rows() && 0 <= i
                < v.cs.gates@[g].polys@.len() && v.sel_at(
                v.cs.gates@[g].selector as int,
                r,
            ) implies #[trigger] v.eval(v.cs.gates@[g].polys@[i], r) == Some(0int) by {
            assert(r == 0);
            assert(v.eval(product_poly(), 0) == Some(0int));
        }
        lemma_product_copies_ok(v, c);
        assert(v.ok());
    }
    let accepted = match v.verify() {
        Ok(()) => true,
        Err(_) => {
            proof {
                assert(false);
            }
            false
        },
    };
    proof {
        assert(product_run_is(product_run_witness(v, c), a, b, c, c));
    }
    (v, accepted)
}

/// If the output cell is overwritten — through the escape hatch — with
/// any value other than `a * b` while the product gate stands, the run
/// fails and the violations name that gate: the list contains
/// `ConstraintNotSatisfied` for that polynomial at its active row.
pub fn forge_product(a: FieldElement, b: FieldElement, forged: FieldElement) -> (r: (
    Verifier,
    Vec<Violation>,
))
    requires
        forged.as_int() != (a.as_int() * b.as_int()) % (MODULUS as int),
    ensures
        !r.0.ok(),
        r.1@.len() > 0,
        r.1@.contains(Violation::ConstraintNotSatisfied { gate: 0, row: 0, poly: 0 }),
        forall|j: int| 0 <= j < r.1@.len() ==> r.0.violation_genuine(#[trigger] r.1@[j]),
        exists|c: FieldElement|
            c.as_int() == (a.as_int() * b.as_int()) % (MODULUS as int) && product_run_is(
                #[trigger] product_run_witness(r.0, c),
                a,
                b,
                forged,
                c,
            ),
{
    let c = a.mul(b);
    c.bounds();
    forged.bounds();
    let mut v = product_run(a, b, c);
    match v.override_advice(0, 2, Value::known(forged)) {
        Ok(()) => {},
        Err(_) => {
            proof {
                assert(false);
            }
        },
    }
    proof {
        assert(v.table.advice@[0]@ =~= Seq::new(16, |r: int| Value::Unknown).update(
            0,
            Value::Known(a),
        ).update(1, Value::Known(b)).update(2, Value::Known(c)).update(2, Value::Known(forged)));
        assert(v.table.advice@[0]@ =~= Seq::new(16, |r: int| Value::Unknown).update(
            0,
            Value::Known(a),
        ).update(1, Value::Known(b)).update(2, Value::Known(forged)));
        lemma_product_gate_value(v, a, b, forged);
        lemma_sub_mod_zero_iff((a.as_int() * b.as_int()) % (MODULUS as int), forged.as_int());
        assert(v.eval(product_poly(), 0) != Some(0int));
        assert(v.sel_at(0, 0));
        assert(v.gate_unsat_at(0, 0, 0));
    }
    match v.verify() {
        Ok(()) => {
            proof {
                assert(v.eval(v.cs.gates@[0].polys@[0], 0) == Some(0int));
                assert(false);
            }
            (v, Vec::new())
        },
        Err(vs) => {
            proof {
                assert(vs@.contains(
                    Violation::ConstraintNotSatisfied { gate: 0, row: 0, poly: 0 },
                ));
                assert(product_run_is(product_run_witness(v, c), a, b, forged, c));
            }
            (v, vs)
        },
    }
}


/// The fully pinned unconstrained run: one advice column holding `w` on
/// row 0 and nothing else — no gate, no lookup, no copy constraint, no
/// public input.
pub open spec fn unconstrained_run_is(v: Verifier, w: FieldElement) -> bool {
    &&& v.wf()
    &&& v.rows() == 16
    &&& v.num_advice() == 1
    &&& v.num_instance() == 0
    &&& v.cs.gates@.len() == 0
    &&& v.cs.lookups@.len() == 0
    &&& v.table.copies@.len() == 0
    &&& v.table.bindings@.len() == 0
    &&& v.table.advice@[0]@ =~= Seq::new(16, |r: int| Value::Unknown).update(0, Value::Known(w))
    &&& v.instances@.len() == 0
}

/// If no gate, lookup or copy constraint touches a circuit's cells, the
/// run accepts any witness value whatsoever: placing `w` — however it was
/// produced — in an otherwise unconstrained circuit always verifies.  The
/// returned run is the pinned unconstrained run itself.
pub fn check_unconstrained(w: FieldElement) -> (r: (Verifier, bool))
    ensures
        r.1,
        r.0.ok(),
        unconstrained_run_is(r.0, w),
{
    proof {
        vstd::arithmetic::power2::lemma2_to64();
    }
    let mut cs = ConstraintSystem::new();
    let advice = cs.advice_column();
    let mut asn = match Assigner::new(&cs, 4) {
        Ok(x) => x,
        Err(_) => {
            proof {
                assert(false);
            }
            unreached()
        },
    };
    match asn.assign_advice(advice, 0, Value::known(w)) {
        Ok(_) => {},
        Err(_) => {
            proof {
                assert(false);
            }
        },
    }
    let table = asn.finish();
    let instances: Vec<Vec<FieldElement>> = Vec::new();
    let ghost gcs = cs;
    let ghost gtable = table;
    let ghost ginst = instances;
    proof {
        let gv = Verifier { k: 4, cs: gcs, table: gtable, instances: ginst };
        assert((gv.num_advice() + gv.num_instance()) * gv.rows() == 16) by (nonlinear_arith)
            requires
                gv.num_advice() == 1,
                gv.num_instance() == 0,
                gv.rows() == 16,
        ;
        assert(gv.shape_fits());
        assert(Verifier::accepts(4, gcs, gtable, ginst));
        lemma_unconstrained_accepts(gv);
    }
    let v = match Verifier::run(4, cs, table, instances) {
        Ok(v) => v,
        Err(_) => {
            proof {
                assert(false);
            }
            unreached()
        },
    };
    let accepted = match v.verify() {
        Ok(()) => true,
        Err(_) => {
            proof {
                assert(false);
            }
            false
        },
    };
    (v, accepted)
}


/// A run whose only copy request is one instance binding passes the copy
/// check exactly when the bound cell agrees with its public input; this
/// generalizes over columns, rows and circuit sizes.
pub proof fn lemma_lone_binding_agrees(v: Verifier)
    requires
        v.wf(),
        v.table.copies@.len() == 0,
        v.table.bindings@.len() == 1,
        v.cellref_val(
            CellRef::Advice {
                column: v.table.bindings@[0].cell.column,
                row: v.table.bindings@[0].cell.row,
            },
        ) == Some(
            v.inst_at(v.table.bindings@[0].column as int, v.table.bindings@[0].row as int),
        ),
    ensures
        v.copy_values_ok(),
        v.copy_assigned_ok(),
{
    let b = v.table.bindings@[0];
    let ca = CellRef::Advice { column: b.cell.column, row: b.cell.row };
    let ci = CellRef::Instance { column: b.column, row: b.row };
    v.lemma_pair_ids_wf();
    assert(v.table.binding_wf(b));
    v.lemma_id_of_val(ca);
    v.lemma_id_of_val(ci);
    assert(v.pair_ids() =~= Seq::<(nat, nat)>::empty().push(
        (v.id_of(ca) as nat, v.id_of(ci) as nat),
    ));
    assert(v.id_val(v.id_of(ca)) == v.cellref_val(ca));
    assert(v.id_val(v.id_of(ci)) == Some(v.inst_at(b.column as int, b.row as int)));
    assert forall|x: nat, y: nat| #[trigger] related(v.pair_ids(), x, y) implies v.ids_agree(
        x,
        y,
    ) by {
        crate::permutation::lemma_related_one_pair(v.pair_ids(), x, y);
        if x != y {
            assert(x == v.id_of(ca) as nat || x == v.id_of(ci) as nat);
            assert(y == v.id_of(ca) as nat || y == v.id_of(ci) as nat);
        }
    }
    assert forall|i: int| 0 <= i < v.pair_ids().len() implies #[trigger] v.pair_reaches_value(
        i,
    ) by {
        lemma_related_refl(v.pair_ids(), v.id_of(ci) as nat);
        assert(related(v.pair_ids(), v.pair_ids()[i].0, v.pair_ids()[i].0) && v.id_val(
            v.pair_ids()[i].0 as int,
        ) is Some) by {
            lemma_related_refl(v.pair_ids(), v.pair_ids()[i].0);
        }
    }
}

/// A run whose only copy request is one instance binding fails the copy
/// check when the bound cell carries a value different from its public
/// input.
pub proof fn lemma_lone_binding_differs(v: Verifier, w: int)
    requires
        v.wf(),
        v.table.copies@.len() == 0,
        v.table.bindings@.len() == 1,
        v.cellref_val(
            CellRef::Advice {
                column: v.table.bindings@[0].cell.column,
                row: v.table.bindings@[0].cell.row,
            },
        ) == Some(w),
        w != v.inst_at(v.table.bindings@[0].column as int, v.table.bindings@[0].row as int),
    ensures
        !v.copy_values_ok(),
{
    let b = v.table.bindings@[0];
    let ca = CellRef::Advice { column: b.cell.column, row: b.cell.row };
    let ci = CellRef::Instance { column: b.column, row: b.row };
    v.lemma_pair_ids_wf();
    assert(v.table.binding_wf(b));
    v.lemma_id_of_val(ca);
    v.lemma_id_of_val(ci);
    assert(v.pair_ids() =~= Seq::<(nat, nat)>::empty().push(
        (v.id_of(ca) as nat, v.id_of(ci) as nat),
    ));
    crate::permutation::lemma_related_step(v.pair_ids(), 0);
    assert(related(v.pair_ids(), v.id_of(ca) as nat, v.id_of(ci) as nat));
    assert(!v.ids_agree(v.id_of(ca) as nat, v.id_of(ci) as nat));
}


/// The reduced sum of a sequence of field elements, taken left to right.
pub open spec fn elems_sum(ds: Seq<FieldElement>, n: int) -> int
    decreases n,
{
    if n <= 0 {
        0int
    } else {
        (elems_sum(ds, n - 1) + ds[n - 1].as_int()) % (MODULUS as int)
    }
}

/// A sequence of known values sums as its field elements do, and the sum
/// stays canonical.
proof fn lemma_values_sum(ds: Seq<FieldElement>, vals: Seq<Value>, n: int)
    requires
        0 <= n <= ds.len(),
        vals.len() == ds.len(),
        forall|i: int| 0 <= i < ds.len() ==> #[trigger] vals[i] == Value::Known(ds[i]),
    ensures
        crate::casino::deposits_sum(vals, n) == Some(elems_sum(ds, n)),
        0 <= elems_sum(ds, n) < MODULUS as int,
    decreases n,
{
    if n > 0 {
        lemma_values_sum(ds, vals, n - 1);
    }
}

/// The general running-sum law: for any sequence of known deposits that
/// fits the circuit, the running-sum circuit accepts exactly when the
/// deposits' reduced sum equals the claimed public total — however that
/// sum came about, wraparound included.  The returned run is the real
/// verification the claim speaks of.
#[verifier::rlimit(100)]
pub fn check_running_sum(deposits: &Vec<FieldElement>, total: FieldElement) -> (r: (
    Verifier,
    bool,
))
    requires
        deposits@.len() + 2 <= 1024,
    ensures
        r.1 == r.0.ok(),
        r.1 == (elems_sum(deposits@, deposits@.len() as int) == total.as_int()),
{
    proof {
        vstd::arithmetic::power2::lemma2_to64();
    }
    total.bounds();
    let mut values: Vec<Value> = Vec::new();
    let mut i: usize = 0;
    while i < deposits.len()
        invariant
            i <= deposits@.len(),
            values@.len() == i,
            forall|j: int| 0 <= j < i ==> #[trigger] values@[j] == Value::Known(deposits@[j]),
        decreases deposits@.len() - i,
    {
        values.push(Value::known(deposits[i]));
        i = i + 1;
    }
    let ghost gvals = values@;
    let n = deposits.len();
    let circuit = crate::casino::casino1::CasinoCircuit {
        deposits: values,
        total: Value::known(total),
    };
    let mut cs = ConstraintSystem::new();
    let config = match crate::casino::casino1::CasinoCircuit::configure(&mut cs) {
        Ok(c) => c,
        Err(_) => {
            proof {
                assert(false);
            }
            unreached()
        },
    };
    let mut asn = match Assigner::new(&cs, 10) {
        Ok(x) => x,
        Err(_) => {
            proof {
                assert(false);
            }
            unreached()
        },
    };
    match circuit.synthesize(&config, &mut asn) {
        Ok(_) => {},
        Err(_) => {
            proof {
                assert(false);
            }
        },
    }
    let table = asn.finish();
    let instances = crate::casino::single_instance(total);
    let ghost gcs = cs;
    let ghost gtable = table;
    let ghost ginst = instances;
    proof {
        let gv = Verifier { k: 10, cs: gcs, table: gtable, instances: ginst };
        assert(gv.table.rows == 1024);
        assert forall|cc: int| 0 <= cc < gv.instances@.len() implies (
        #[trigger] gv.instances@[cc])@.len() <= gv.table.rows by {
            assert(cc == 0);
        }
        assert((gv.num_advice() + gv.num_instance()) * gv.rows() == 3072) by (nonlinear_arith)
            requires
                gv.num_advice() == 2,
                gv.num_instance() == 1,
                gv.rows() == 1024,
        ;
        assert(gv.num_cells() == 3072);
        assert(gv.shape_fits());
        assert(gv.table.selectors@[0]@ == Seq::new(1024, |x: int| false).update(0, true));
        assert(gv.table.selectors@[2]@ == Seq::new(1024, |x: int| false).update(
            n as int + 1,
            true,
        ));
        assert forall|r: int|
            0 <= r < gv.table.rows && !(1 <= r <= n as int) implies !(
            #[trigger] gv.table.selectors@[1]@[r]) by {
            assert(gv.table.selectors@[1]@[r] == false);
        }
        crate::casino::lemma_casino_gate_rotations(gv, n as int);
        assert(Verifier::accepts(10, gcs, gtable, ginst));
    }
    let v = match Verifier::run(10, cs, table, instances) {
        Ok(v) => v,
        Err(_) => {
            proof {
                assert(false);
            }
            unreached()
        },
    };
    let accepted = v.verify().is_ok();
    proof {
        let m = MODULUS as int;
        let nn = n as int;
        lemma_values_sum(deposits@, gvals, nn);
        assert(v.adv_at(0, 0) == Some(0int));
        assert(v.adv_at(1, 0) == Some(0int));
        assert((v.table.advice@[1]@[0int + 1 + (nn - 1)]).as_opt() == crate::casino::deposits_sum(
            gvals,
            nn,
        )) by {
            if nn > 0 {
            }
        }
        assert(v.adv_at(1, nn + 1) == Some(total.as_int()));
        assert(v.adv_at(1, nn) == Some(elems_sum(deposits@, nn))) by {
            if nn == 0 {
                assert(v.adv_at(1, 0) == Some(0int));
            } else {
                assert((v.table.advice@[1]@[0int + 1 + (nn - 1)]).as_opt()
                    == crate::casino::deposits_sum(gvals, nn));
            }
        }
        crate::casino::lemma_total_poly_eval(
            v,
            nn + 1,
            elems_sum(deposits@, nn),
            total.as_int(),
        );
        lemma_sub_mod_zero_iff(elems_sum(deposits@, nn), total.as_int());
        if elems_sum(deposits@, nn) == total.as_int() {
            // Accepted: every gate vanishes and the lone binding agrees.
            assert forall|g: int, r: int, i: int|
                0 <= g < v.cs.gates@.len() && 0 <= r < v.rows() && 0 <= i
                    < v.cs.gates@[g].polys@.len() && v.sel_at(
                    v.cs.gates@[g].selector as int,
                    r,
                ) implies #[trigger] v.eval(v.cs.gates@[g].polys@[i], r) == Some(0int) by {
                if g == 0 {
                    if r != 0 {
                        assert(v.table.selectors@[0]@[r] == false);
                    }
                    assert(r == 0);
                    if i == 0 {
                        assert(v.eval(
                            Expression::Advice { column: 0, rotation: 0 },
                            0,
                        ) == Some(0int));
                    } else {
                        assert(i == 1);
                        assert(v.eval(
                            Expression::Advice { column: 1, rotation: 0 },
                            0,
                        ) == Some(0int));
                    }
                } else if g == 1 {
                    if !(1 <= r <= nn) {
                        assert(v.table.selectors@[1]@[r] == false);
                    }
                    assert(1 <= r <= nn);
                    assert(i == 0);
                    let ii = r - 1;
                    assert(0 <= ii < nn);
                    lemma_values_sum(deposits@, gvals, r - 1);
                    lemma_values_sum(deposits@, gvals, r);
                    let sp = elems_sum(deposits@, r - 1);
                    let d = deposits@[ii].as_int();
                    let sc = elems_sum(deposits@, r);
                    assert(v.table.advice@[0]@[0 + 1 + ii] == gvals[ii]);
                    assert((v.table.advice@[1]@[0 + 1 + ii]).as_opt()
                        == crate::casino::deposits_sum(gvals, ii + 1));
                    if ii >= 1 {
                        assert((v.table.advice@[1]@[0 + 1 + (ii - 1)]).as_opt()
                            == crate::casino::deposits_sum(gvals, ii));
                    }
                    assert(v.adv_at(1, r - 1) == Some(sp));
                    assert(v.adv_at(0, r) == Some(d));
                    assert(v.adv_at(1, r) == Some(sc));
                    crate::casino::lemma_running_poly_eval(v, r, sp, d, sc);
                    assert(sc == (sp + d) % m);
                    lemma_sub_mod_zero_iff((sp + d) % m, sc);
                } else {
                    assert(g == 2);
                    if r != nn + 1 {
                        assert(v.table.selectors@[2]@[r] == false);
                    }
                    assert(r == nn + 1);
                    assert(i == 0);
                }
            }
            assert(v.cellref_val(
                CellRef::Advice {
                    column: v.table.bindings@[0].cell.column,
                    row: v.table.bindings@[0].cell.row,
                },
            ) == Some(total.as_int()));
            assert(v.inst_at(0, 0) == total.as_int());
            lemma_lone_binding_agrees(v);
            assert(v.ok());
            assert(accepted);
        } else {
            // Rejected: the total gate sees the mismatch.
            assert(v.eval(crate::casino::casino1::total_poly(1), nn + 1) != Some(0int));
            assert(v.sel_at(2, nn + 1));
            if v.gates_ok() {
                assert(v.eval(v.cs.gates@[2].polys@[0], nn + 1) == Some(0int));
            }
            assert(!v.ok());
            assert(!accepted);
        }
    }
    (v, accepted)
}

} // verus!
