//! The multiplication examples: proving `a * b` against a public result.
//!
//! The vulnerable stage records the product with no constraint at all;
//! the middle stage copies the product to the public input but has no
//! gate, so the product cell can be overwritten; the hardened stage adds
//! a multiplication gate and catches the overwrite.  Each stage's outcome
//! is proved, not just observed: the driver's contract fixes all five
//! flags.

use vstd::prelude::*;

use crate::assign::Assigner;
use crate::assign::InstanceBinding;
use crate::casino::single_instance;
use crate::error::Error;
use crate::expression::expr_rotations_ok;
use crate::expression::Expression;
use crate::field::lemma_sub_mod_zero_iff;
use crate::field::FieldElement;
use crate::field::MODULUS;
use crate::layout::Cell;
use crate::mul::mul2::mul_gate_poly;
use crate::permutation::lemma_related_one_pair;
use crate::permutation::lemma_related_refl;
use crate::permutation::lemma_related_step;
use crate::permutation::related;
use crate::prover::Verifier;
use crate::system::ConstraintSystem;
use crate::value::Value;

pub mod mul0;
pub mod mul1;
pub mod mul2;

verus! {

/// The value of [`mul_gate_poly`] over column 0 at row 0, for assigned
/// cells `x0`, `x1`, `x2`: the reduced `x0 * x1 - x2`.
proof fn lemma_mul_poly_eval(v: Verifier, x0: int, x1: int, x2: int)
    requires
        v.adv_at(0, 0) == Some(x0),
        v.adv_at(0, 1) == Some(x1),
        v.adv_at(0, 2) == Some(x2),
    ensures
        v.eval(mul_gate_poly(0), 0) == Some(
            ((x0 * x1) % (MODULUS as int) + (0 - x2) % (MODULUS as int)) % (MODULUS as int),
        ),
{
    assert(v.eval(Expression::Advice { column: 0, rotation: 0 }, 0) == Some(x0));
    assert(v.eval(Expression::Advice { column: 0, rotation: 1 }, 0) == Some(x1));
    assert(v.eval(Expression::Advice { column: 0, rotation: 2 }, 0) == Some(x2));
    assert(v.eval(
        Expression::Product(
            Box::new(Expression::Advice { column: 0, rotation: 0 }),
            Box::new(Expression::Advice { column: 0, rotation: 1 }),
        ),
        0,
    ) == Some((x0 * x1) % (MODULUS as int)));
    assert(v.eval(
        Expression::Negate(Box::new(Expression::Advice { column: 0, rotation: 2 })),
        0,
    ) == Some((0 - x2) % (MODULUS as int)));
}

/// [`mul_gate_poly`] over column 0 stays inside 16 rows at row 0.
proof fn lemma_mul_rotations()
    ensures
        expr_rotations_ok(mul_gate_poly(0), 0, 16),
{
    assert(expr_rotations_ok(Expression::Advice { column: 0, rotation: 0 }, 0, 16));
    assert(expr_rotations_ok(Expression::Advice { column: 0, rotation: 1 }, 0, 16));
    assert(expr_rotations_ok(Expression::Advice { column: 0, rotation: 2 }, 0, 16));
    assert(expr_rotations_ok(
        Expression::Product(
            Box::new(Expression::Advice { column: 0, rotation: 0 }),
            Box::new(Expression::Advice { column: 0, rotation: 1 }),
        ),
        0,
        16,
    ));
    assert(expr_rotations_ok(
        Expression::Negate(Box::new(Expression::Advice { column: 0, rotation: 2 })),
        0,
        16,
    ));
}

/// The single instance binding of the multiplication runs, as an
/// identifier pair: advice cell (0, 2) is cell 2, instance cell (0, 0)
/// is cell 16.
proof fn lemma_binding_pair(v: Verifier)
    requires
        v.wf(),
        v.rows() == 16,
        v.num_advice() == 1,
        v.num_instance() == 1,
        v.table.copies@.len() == 0,
        v.table.bindings@ =~= Seq::empty().push(
            InstanceBinding { cell: Cell { column: 0, row: 2 }, column: 0, row: 0 },
        ),
    ensures
        v.pair_ids() =~= Seq::<(nat, nat)>::empty().push((2nat, 16nat)),
        v.id_val(2) == v.adv_at(0, 2),
        v.id_val(16) == Some(v.inst_at(0, 0)),
{
    assert(v.pair_ids() =~= Seq::<(nat, nat)>::empty().push((2nat, 16nat)));
}

/// When the bound product cell agrees with the public input, the copy
/// check passes.
proof fn lemma_binding_agrees(v: Verifier, w: int)
    requires
        v.wf(),
        v.rows() == 16,
        v.num_advice() == 1,
        v.num_instance() == 1,
        v.table.copies@.len() == 0,
        v.table.bindings@ =~= Seq::empty().push(
            InstanceBinding { cell: Cell { column: 0, row: 2 }, column: 0, row: 0 },
        ),
        v.adv_at(0, 2) == Some(w),
        v.inst_at(0, 0) == w,
    ensures
        v.copy_values_ok(),
        v.copy_assigned_ok(),
{
    lemma_binding_pair(v);
    assert forall|x: nat, y: nat| #[trigger] related(v.pair_ids(), x, y) implies v.ids_agree(
        x,
        y,
    ) by {
        lemma_related_one_pair(v.pair_ids(), x, y);
        if x != y {
            assert(x == 2 || x == 16);
            assert(y == 2 || y == 16);
        }
    }
    assert forall|i: int| 0 <= i < v.pair_ids().len() implies #[trigger] v.pair_reaches_value(
        i,
    ) by {
        lemma_related_refl(v.pair_ids(), 2nat);
        assert(related(v.pair_ids(), v.pair_ids()[i].0, 2nat) && v.id_val(2) is Some);
    }
}

/// When the bound product cell differs from the public input, the copy
/// check fails.
proof fn lemma_binding_differs(v: Verifier, w1: int, w2: int)
    requires
        v.wf(),
        v.rows() == 16,
        v.num_advice() == 1,
        v.num_instance() == 1,
        v.table.copies@.len() == 0,
        v.table.bindings@ =~= Seq::empty().push(
            InstanceBinding { cell: Cell { column: 0, row: 2 }, column: 0, row: 0 },
        ),
        v.adv_at(0, 2) == Some(w1),
        v.inst_at(0, 0) == w2,
        w1 != w2,
    ensures
        !v.copy_values_ok(),
{
    lemma_binding_pair(v);
    lemma_related_step(v.pair_ids(), 0);
    assert(related(v.pair_ids(), 2nat, 16nat));
    assert(!v.ids_agree(2nat, 16nat));
}

/// The shape facts shared by every multiplication stage: the packaged
/// run fits, up to the rotation checks.
proof fn lemma_mul_shape(gv: Verifier)
    requires
        gv.k == 4,
        gv.cs.wf(),
        gv.table.wf(),
        gv.table.rows == 16,
        gv.table.rows as nat == vstd::arithmetic::power2::pow2(4),
        gv.num_advice() == 1,
        gv.num_instance() == 1,
        gv.table.num_advice() == 1,
        gv.table.num_instance() == 1,
        gv.table.selectors@.len() == gv.cs.num_selectors,
        gv.table.tables@.len() == gv.cs.num_table_columns,
        gv.instances@.len() == 1,
        gv.instances@[0]@.len() == 1,
        gv.cs.lookups@.len() == 0,
    ensures
        gv.shape_fits(),
        crate::prover::lookup_rotations_ok(gv.cs, gv.table),
{
    vstd::arithmetic::power2::lemma2_to64();
    assert forall|cc: int| 0 <= cc < gv.instances@.len() implies (
    #[trigger] gv.instances@[cc])@.len() <= gv.table.rows by {
        assert(cc == 0);
    }
    assert((gv.num_advice() + gv.num_instance()) * gv.rows() == 32) by (nonlinear_arith)
        requires
            gv.num_advice() == 1,
            gv.num_instance() == 1,
            gv.rows() == 16,
    ;
    assert(gv.num_cells() == 32);
}

/// Vulnerable stage: no gate and no copy constraint, so the wrong public
/// result 12 for `2 * 3` is accepted.
fn stage_unconstrained() -> (flag: bool)
    ensures
        flag,
{
    proof {
        vstd::arithmetic::power2::lemma2_to64();
    }
    let result = FieldElement::from_u64(12);
    let circuit = mul0::MultiplicationCircuit {
        a: Value::known(FieldElement::from_u64(2)),
        b: Value::known(FieldElement::from_u64(3)),
    };
    let mut cs = ConstraintSystem::new();
    let config = match mul0::MultiplicationCircuit::configure(&mut cs) {
        Ok(c) => c,
        Err(_) => {
            proof {
                assert(false);
            }
            unreached()
        },
    };
    let mut asn = match Assigner::new(&cs, 4) {
        Ok(x) => x,
        Err(_) => {
            proof {
                assert(false);
            }
            unreached()
        },
    };
    match circuit.synthesize(&config, &mut asn) {
        Ok(_) => {},
        Err(_) => {
            proof {
                assert(false);
            }
        },
    }
    let table = asn.finish();
    let instances = single_instance(result);
    let ghost gcs = cs;
    let ghost gtable = table;
    let ghost ginst = instances;
    proof {
        let gv = Verifier { k: 4, cs: gcs, table: gtable, instances: ginst };
        lemma_mul_shape(gv);
        assert(Verifier::accepts(4, gcs, gtable, ginst));
        crate::laws::lemma_unconstrained_accepts(gv);
    }
    let v = match Verifier::run(4, cs, table, instances) {
        Ok(v) => v,
        Err(_) => {
            proof {
                assert(false);
            }
            unreached()
        },
    };
    let flag = v.verify().is_ok();
    proof {
        assert(v.ok());
    }
    flag
}

/// Middle stage, honest: the product 6 is copied to the public input 12,
/// so the run is rejected — by the copy check, since no gate exists.
fn stage_copy_only_honest() -> (flag: bool)
    ensures
        !flag,
{
    proof {
        vstd::arithmetic::power2::lemma2_to64();
    }
    let result = FieldElement::from_u64(12);
    let circuit = mul1::MultiplicationCircuit {
        a: Value::known(FieldElement::from_u64(2)),
        b: Value::known(FieldElement::from_u64(3)),
    };
    let mut cs = ConstraintSystem::new();
    let config = match mul1::MultiplicationCircuit::configure(&mut cs) {
        Ok(c) => c,
        Err(_) => {
            proof {
                assert(false);
            }
            unreached()
        },
    };
    let mut asn = match Assigner::new(&cs, 4) {
        Ok(x) => x,
        Err(_) => {
            proof {
                assert(false);
            }
            unreached()
        },
    };
    match circuit.synthesize(&config, &mut asn) {
        Ok(_) => {},
        Err(_) => {
            proof {
                assert(false);
            }
        },
    }
    let table = asn.finish();
    let instances = single_instance(result);
    let ghost gcs = cs;
    let ghost gtable = table;
    let ghost ginst = instances;
    proof {
        let gv = Verifier { k: 4, cs: gcs, table: gtable, instances: ginst };
        lemma_mul_shape(gv);
        assert(Verifier::accepts(4, gcs, gtable, ginst));
    }
    let v = match Verifier::run(4, cs, table, instances) {
        Ok(v) => v,
        Err(_) => {
            proof {
                assert(false);
            }
            unreached()
        },
    };
    let flag = v.verify().is_ok();
    proof {
        assert(v.table == gtable);
        assert(circuit.a.as_opt() == Some(2int));
        assert(circuit.b.as_opt() == Some(3int));
        assert(v.table.advice@[0]@[2].as_opt() == crate::value::opt_mul(
            circuit.a.as_opt(),
            circuit.b.as_opt(),
        ));
        assert((2int * 3int) % (MODULUS as int) == 6int);
        assert(v.adv_at(0, 2) == Some(6int));
        assert(v.inst_at(0, 0) == 12int);
        lemma_binding_differs(v, 6int, 12int);
        assert(!v.ok());
    }
    flag
}

/// Middle stage, forged: overwriting the unconstrained product cell with
/// the claimed result makes the run pass.
fn stage_copy_only_forged() -> (flag: bool)
    ensures
        flag,
{
    proof {
        vstd::arithmetic::power2::lemma2_to64();
    }
    let result = FieldElement::from_u64(12);
    let circuit = mul1::MultiplicationCircuit {
        a: Value::known(FieldElement::from_u64(2)),
        b: Value::known(FieldElement::from_u64(3)),
    };
    let mut cs = ConstraintSystem::new();
    let config = match mul1::MultiplicationCircuit::configure(&mut cs) {
        Ok(c) => c,
        Err(_) => {
            proof {
                assert(false);
            }
            unreached()
        },
    };
    let mut asn = match Assigner::new(&cs, 4) {
        Ok(x) => x,
        Err(_) => {
            proof {
                assert(false);
            }
            unreached()
        },
    };
    match circuit.synthesize(&config, &mut asn) {
        Ok(_) => {},
        Err(_) => {
            proof {
                assert(false);
            }
        },
    }
    let table = asn.finish();
    let instances = single_instance(result);
    let ghost gcs = cs;
    let ghost gtable = table;
    let ghost ginst = instances;
    proof {
        let gv = Verifier { k: 4, cs: gcs, table: gtable, instances: ginst };
        lemma_mul_shape(gv);
        assert(Verifier::accepts(4, gcs, gtable, ginst));
    }
    let mut v = match Verifier::run(4, cs, table, instances) {
        Ok(v) => v,
        Err(_) => {
            proof {
                assert(false);
            }
            unreached()
        },
    };
    match v.override_advice(0, 2, Value::known(result)) {
        Ok(()) => {},
        Err(_) => {
            proof {
                assert(false);
            }
        },
    }
    let flag = v.verify().is_ok();
    proof {
        assert(v.adv_at(0, 2) == Some(12int));
        assert(v.inst_at(0, 0) == 12int);
        lemma_binding_agrees(v, 12int);
        assert(v.ok());
    }
    flag
}

/// Hardened stage, forged: the overwrite now trips the mul gate.
fn stage_gated_forged() -> (flag: bool)
    ensures
        !flag,
{
    proof {
        vstd::arithmetic::power2::lemma2_to64();
    }
    let result = FieldElement::from_u64(12);
    let circuit = mul2::MultiplicationCircuit {
        a: Value::known(FieldElement::from_u64(2)),
        b: Value::known(FieldElement::from_u64(3)),
    };
    let mut cs = ConstraintSystem::new();
    let config = match mul2::MultiplicationCircuit::configure(&mut cs) {
        Ok(c) => c,
        Err(_) => {
            proof {
                assert(false);
            }
            unreached()
        },
    };
    let mut asn = match Assigner::new(&cs, 4) {
        Ok(x) => x,
        Err(_) => {
            proof {
                assert(false);
            }
            unreached()
        },
    };
    match circuit.synthesize(&config, &mut asn) {
        Ok(_) => {},
        Err(_) => {
            proof {
                assert(false);
            }
        },
    }
    let table = asn.finish();
    let instances = single_instance(result);
    let ghost gcs = cs;
    let ghost gtable = table;
    let ghost ginst = instances;
    proof {
        let gv = Verifier { k: 4, cs: gcs, table: gtable, instances: ginst };
        lemma_mul_shape(gv);
        assert(gv.table.selectors@[0]@ == Seq::new(16, |x: int| false).update(0, true));
        assert forall|g: int, r: int, i: int|
            0 <= g < gv.cs.gates@.len() && 0 <= r < gv.table.rows && 0 <= i
                < gv.cs.gates@[g].polys@.len()
                && gv.table.selectors@[gv.cs.gates@[g].selector as int]@[r] implies #[trigger] expr_rotations_ok(
            gv.cs.gates@[g].polys@[i],
            r,
            gv.table.rows as int,
        ) by {
            if r != 0 {
                assert(gv.table.selectors@[0]@[r] == false);
            }
            assert(r == 0);
            lemma_mul_rotations();
        }
        assert(Verifier::accepts(4, gcs, gtable, ginst));
    }
    let mut v = match Verifier::run(4, cs, table, instances) {
        Ok(v) => v,
        Err(_) => {
            proof {
                assert(false);
            }
            unreached()
        },
    };
    match v.override_advice(0, 2, Value::known(result)) {
        Ok(()) => {},
        Err(_) => {
            proof {
                assert(false);
            }
        },
    }
    let flag = v.verify().is_ok();
    proof {
        assert(v.adv_at(0, 0) == Some(2int));
        assert(v.adv_at(0, 1) == Some(3int));
        assert(v.adv_at(0, 2) == Some(12int));
        lemma_mul_poly_eval(v, 2int, 3int, 12int);
        lemma_sub_mod_zero_iff(6int, 12int);
        assert(v.eval(mul_gate_poly(0), 0) != Some(0int));
        assert(v.sel_at(0, 0));
        if v.gates_ok() {
            assert(v.eval(v.cs.gates@[0].polys@[0], 0) == Some(0int));
        }
        assert(!v.ok());
    }
    flag
}

/// Hardened stage, honest: `3 * 4 = 12` matches the public result and
/// its gate, so the run passes.
fn stage_gated_honest() -> (flag: bool)
    ensures
        flag,
{
    proof {
        vstd::arithmetic::power2::lemma2_to64();
    }
    let result = FieldElement::from_u64(12);
    let circuit = mul2::MultiplicationCircuit {
        a: Value::known(FieldElement::from_u64(3)),
        b: Value::known(FieldElement::from_u64(4)),
    };
    let mut cs = ConstraintSystem::new();
    let config = match mul2::MultiplicationCircuit::configure(&mut cs) {
        Ok(c) => c,
        Err(_) => {
            proof {
                assert(false);
            }
            unreached()
        },
    };
    let mut asn = match Assigner::new(&cs, 4) {
        Ok(x) => x,
        Err(_) => {
            proof {
                assert(false);
            }
            unreached()
        },
    };
    match circuit.synthesize(&config, &mut asn) {
        Ok(_) => {},
        Err(_) => {
            proof {
                assert(false);
            }
        },
    }
    let table = asn.finish();
    let instances = single_instance(result);
    let ghost gcs = cs;
    let ghost gtable = table;
    let ghost ginst = instances;
    proof {
        let gv = Verifier { k: 4, cs: gcs, table: gtable, instances: ginst };
        lemma_mul_shape(gv);
        assert(gv.table.selectors@[0]@ == Seq::new(16, |x: int| false).update(0, true));
        assert forall|g: int, r: int, i: int|
            0 <= g < gv.cs.gates@.len() && 0 <= r < gv.table.rows && 0 <= i
                < gv.cs.gates@[g].polys@.len()
                && gv.table.selectors@[gv.cs.gates@[g].selector as int]@[r] implies #[trigger] expr_rotations_ok(
            gv.cs.gates@[g].polys@[i],
            r,
            gv.table.rows as int,
        ) by {
            if r != 0 {
                assert(gv.table.selectors@[0]@[r] == false);
            }
            assert(r == 0);
            lemma_mul_rotations();
        }
        assert(Verifier::accepts(4, gcs, gtable, ginst));
    }
    let v = match Verifier::run(4, cs, table, instances) {
        Ok(v) => v,
        Err(_) => {
            proof {
                assert(false);
            }
            unreached()
        },
    };
    let flag = v.verify().is_ok();
    proof {
        assert(v.adv_at(0, 0) == Some(3int));
        assert(v.adv_at(0, 1) == Some(4int));
        assert(v.adv_at(0, 2) == Some(12int));
        lemma_mul_poly_eval(v, 3int, 4int, 12int);
        lemma_sub_mod_zero_iff(12int, 12int);
        assert forall|g: int, r: int, i: int|
            0 <= g < v.cs.gates@.len() && 0 <= r < v.rows() && 0 <= i
                < v.cs.gates@[g].polys@.len() && v.sel_at(
                v.cs.gates@[g].selector as int,
                r,
            ) implies #[trigger] v.eval(v.cs.gates@[g].polys@[i], r) == Some(0int) by {
            if r != 0 {
                assert(v.table.selectors@[0]@[r] == false);
            }
            assert(r == 0);
            assert(v.eval(mul_gate_poly(0), 0) == Some(0int));
        }
        lemma_binding_agrees(v, 12int);
        assert(v.ok());
    }
    flag
}

/// Drives the multiplication examples in turn.  Every flag is fixed by
/// the contract, with the whole chain — builder, assigner, run and
/// decision — proved rather than observed:
///
/// 1. no constraints at all: the wrong public result 12 is accepted;
/// 2. copy-only stage, honest product: rejected (product 6 ≠ result 12);
/// 3. copy-only stage, product cell overwritten: accepted;
/// 4. gated stage, product cell overwritten: rejected by the mul gate;
/// 5. gated stage, honest witness `3 * 4 = 12`: accepted.
pub fn multiplication() -> (r: Result<Vec<bool>, Error>)
    ensures
        r is Ok,
        r matches Ok(flags) ==> flags@ =~= seq![true, false, true, false, true],
{
    let mut flags: Vec<bool> = Vec::new();
    flags.push(stage_unconstrained());
    flags.push(stage_copy_only_honest());
    flags.push(stage_copy_only_forged());
    flags.push(stage_gated_forged());
    flags.push(stage_gated_honest());
    Ok(flags)
}

} // verus!
