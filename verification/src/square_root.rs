//! The square-root examples: proving knowledge of a root of a public
//! square.
//!
//! The field always contains two roots: `r` and `-r`.  The first stage
//! accepts either, which surprises callers expecting the "positive" one;
//! the hardened stage range-checks the root through a lookup, so the
//! wrapped-around `-r` is rejected.  Each stage's outcome is proved, not
//! just observed: the driver's contract fixes all three flags.

use vstd::prelude::*;

use crate::assign::Assigner;
use crate::casino::single_instance;
use crate::error::Error;
use crate::expression::expr_rotations_ok;
use crate::expression::Expression;
use crate::field::lemma_sub_mod_zero_iff;
use crate::field::FieldElement;
use crate::field::MODULUS;
use crate::laws::lemma_lone_binding_agrees;
use crate::layout::CellRef;
use crate::prover::Verifier;
use crate::square_root::sroot0::square_gate_poly;
use crate::square_root::sroot1::square_row_poly;
use crate::system::ConstraintSystem;
use crate::value::Value;

pub mod sroot0;
pub mod sroot1;

verus! {

/// The wrapped-around root: `(0 - 3) mod p` squares back to 9.
proof fn lemma_wrapped_root_squares()
    ensures
        ((MODULUS as int - 3) * (MODULUS as int - 3)) % (MODULUS as int) == 9,
{
    let m = MODULUS as int;
    assert((m - 3) * (m - 3) == (m - 6) * m + 9) by (nonlinear_arith);
    vstd::arithmetic::div_mod::lemma_fundamental_div_mod_converse_mod(
        (m - 3) * (m - 3),
        m,
        m - 6,
        9,
    );
}

/// The value of [`square_gate_poly`] over column 0 at row 0.
proof fn lemma_sroot0_poly_eval(v: Verifier, x0: int, x1: int)
    requires
        v.adv_at(0, 0) == Some(x0),
        v.adv_at(0, 1) == Some(x1),
    ensures
        v.eval(square_gate_poly(0), 0) == Some(
            ((x0 * x0) % (MODULUS as int) + (0 - x1) % (MODULUS as int)) % (MODULUS as int),
        ),
{
    assert(v.eval(Expression::Advice { column: 0, rotation: 0 }, 0) == Some(x0));
    assert(v.eval(Expression::Advice { column: 0, rotation: 1 }, 0) == Some(x1));
    assert(v.eval(
        Expression::Product(
            Box::new(Expression::Advice { column: 0, rotation: 0 }),
            Box::new(Expression::Advice { column: 0, rotation: 0 }),
        ),
        0,
    ) == Some((x0 * x0) % (MODULUS as int)));
    assert(v.eval(
        Expression::Negate(Box::new(Expression::Advice { column: 0, rotation: 1 })),
        0,
    ) == Some((0 - x1) % (MODULUS as int)));
}

/// The value of [`square_row_poly`] over columns 0 and 1 at row 0.
proof fn lemma_sroot1_poly_eval(v: Verifier, x: int, y: int)
    requires
        v.adv_at(0, 0) == Some(x),
        v.adv_at(1, 0) == Some(y),
    ensures
        v.eval(square_row_poly(0, 1), 0) == Some(
            ((x * x) % (MODULUS as int) + (0 - y) % (MODULUS as int)) % (MODULUS as int),
        ),
{
    assert(v.eval(Expression::Advice { column: 0, rotation: 0 }, 0) == Some(x));
    assert(v.eval(Expression::Advice { column: 1, rotation: 0 }, 0) == Some(y));
    assert(v.eval(
        Expression::Product(
            Box::new(Expression::Advice { column: 0, rotation: 0 }),
            Box::new(Expression::Advice { column: 0, rotation: 0 }),
        ),
        0,
    ) == Some((x * x) % (MODULUS as int)));
    assert(v.eval(
        Expression::Negate(Box::new(Expression::Advice { column: 1, rotation: 0 })),
        0,
    ) == Some((0 - y) % (MODULUS as int)));
}

/// First stage: the ungated range lets the wrapped-around root `-3`
/// prove the public square 9.
fn stage_unbounded_root() -> (flag: bool)
    ensures
        flag,
{
    proof {
        vstd::arithmetic::power2::lemma2_to64();
    }
    let n = FieldElement::from_u64(9);
    let fake_root = FieldElement::zero().sub(FieldElement::from_u64(3));
    let circuit = sroot0::SquareRootCircuit { root: Value::known(fake_root) };
    let mut cs = ConstraintSystem::new();
    let config = match sroot0::SquareRootCircuit::configure(&mut cs) {
        Ok(c) => c,
        Err(_) => {
            proof {
                assert(false);
            }
            unreached()
        },
    };
    let mut asn = match Assigner::new(&cs, 3) {
        Ok(x) => x,
        Err(_) => {
            proof {
                assert(false);
            }
            unreached()
        },
    };
    match circuit.synthesize(&config, &mut asn) {
        Ok(_) => {},
        Err(_) => {
            proof {
                assert(false);
            }
        },
    }
    let table = asn.finish();
    let instances = single_instance(n);
    let ghost gcs = cs;
    let ghost gtable = table;
    let ghost ginst = instances;
    proof {
        let gv = Verifier { k: 3, cs: gcs, table: gtable, instances: ginst };
        assert(gv.table.rows == 8);
        assert forall|cc: int| 0 <= cc < gv.instances@.len() implies (
        #[trigger] gv.instances@[cc])@.len() <= gv.table.rows by {
            assert(cc == 0);
        }
        assert((gv.num_advice() + gv.num_instance()) * gv.rows() == 16) by (nonlinear_arith)
            requires
                gv.num_advice() == 1,
                gv.num_instance() == 1,
                gv.rows() == 8,
        ;
        assert(gv.num_cells() == 16);
        assert(gv.shape_fits());
        assert(gv.table.selectors@[0]@ == Seq::new(8, |x: int| false).update(0, true));
        assert forall|g: int, r: int, i: int|
            0 <= g < gv.cs.gates@.len() && 0 <= r < gv.table.rows && 0 <= i
                < gv.cs.gates@[g].polys@.len()
                && gv.table.selectors@[gv.cs.gates@[g].selector as int]@[r] implies #[trigger] expr_rotations_ok(
            gv.cs.gates@[g].polys@[i],
            r,
            gv.table.rows as int,
        ) by {
            if r != 0 {
                assert(gv.table.selectors@[0]@[r] == false);
            }
            assert(r == 0);
            assert(expr_rotations_ok(Expression::Advice { column: 0, rotation: 0 }, 0, 8));
            assert(expr_rotations_ok(Expression::Advice { column: 0, rotation: 1 }, 0, 8));
            assert(expr_rotations_ok(
                Expression::Product(
                    Box::new(Expression::Advice { column: 0, rotation: 0 }),
                    Box::new(Expression::Advice { column: 0, rotation: 0 }),
                ),
                0,
                8,
            ));
            assert(expr_rotations_ok(
                Expression::Negate(Box::new(Expression::Advice { column: 0, rotation: 1 })),
                0,
                8,
            ));
            assert(expr_rotations_ok(square_gate_poly(0), 0, 8));
        }
        assert(Verifier::accepts(3, gcs, gtable, ginst));
    }
    let v = match Verifier::run(3, cs, table, instances) {
        Ok(v) => v,
        Err(_) => {
            proof {
                assert(false);
            }
            unreached()
        },
    };
    let flag = v.verify().is_ok();
    proof {
        lemma_wrapped_root_squares();
        assert(fake_root.as_int() == MODULUS as int - 3);
        assert(v.adv_at(0, 0) == Some(MODULUS as int - 3));
        assert(v.adv_at(0, 1) == Some(9int));
        lemma_sroot0_poly_eval(v, MODULUS as int - 3, 9int);
        lemma_sub_mod_zero_iff(9int, 9int);
        assert forall|g: int, r: int, i: int|
            0 <= g < v.cs.gates@.len() && 0 <= r < v.rows() && 0 <= i
                < v.cs.gates@[g].polys@.len() && v.sel_at(
                v.cs.gates@[g].selector as int,
                r,
            ) implies #[trigger] v.eval(v.cs.gates@[g].polys@[i], r) == Some(0int) by {
            if r != 0 {
                assert(v.table.selectors@[0]@[r] == false);
            }
            assert(r == 0);
            assert(v.eval(square_gate_poly(0), 0) == Some(0int));
        }
        assert(v.cellref_val(CellRef::Advice { column: 0, row: 1 }) == Some(9int));
        assert(v.inst_at(0, 0) == 9int);
        lemma_lone_binding_agrees(v);
        assert(v.ok());
    }
    flag
}

/// Hardened stage with the wrapped-around root: the lookup rejects it.
fn stage_checked_fake() -> (flag: bool)
    ensures
        !flag,
{
    proof {
        vstd::arithmetic::power2::lemma2_to64();
    }
    let n = FieldElement::from_u64(9);
    let fake_root = FieldElement::zero().sub(FieldElement::from_u64(3));
    let circuit = sroot1::SquareRootCircuit { root: Value::known(fake_root) };
    let mut cs = ConstraintSystem::new();
    let config = match sroot1::SquareRootCircuit::configure(&mut cs) {
        Ok(c) => c,
        Err(_) => {
            proof {
                assert(false);
            }
            unreached()
        },
    };
    let mut asn = match Assigner::new(&cs, 5) {
        Ok(x) => x,
        Err(_) => {
            proof {
                assert(false);
            }
            unreached()
        },
    };
    match circuit.synthesize(&config, &mut asn) {
        Ok(_) => {},
        Err(_) => {
            proof {
                assert(false);
            }
        },
    }
    let table = asn.finish();
    let instances = single_instance(n);
    let ghost gcs = cs;
    let ghost gtable = table;
    let ghost ginst = instances;
    proof {
        let gv = Verifier { k: 5, cs: gcs, table: gtable, instances: ginst };
        assert(gv.table.rows == 32);
        assert forall|cc: int| 0 <= cc < gv.instances@.len() implies (
        #[trigger] gv.instances@[cc])@.len() <= gv.table.rows by {
            assert(cc == 0);
        }
        assert((gv.num_advice() + gv.num_instance()) * gv.rows() == 96) by (nonlinear_arith)
            requires
                gv.num_advice() == 2,
                gv.num_instance() == 1,
                gv.rows() == 32,
        ;
        assert(gv.num_cells() == 96);
        assert(gv.shape_fits());
        assert forall|g: int, r: int, i: int|
            0 <= g < gv.cs.gates@.len() && 0 <= r < gv.table.rows && 0 <= i
                < gv.cs.gates@[g].polys@.len()
                && gv.table.selectors@[gv.cs.gates@[g].selector as int]@[r] implies #[trigger] expr_rotations_ok(
            gv.cs.gates@[g].polys@[i],
            r,
            gv.table.rows as int,
        ) by {
            lemma_sroot1_rotations(r);
        }
        assert forall|l: int, r: int|
            0 <= l < gv.cs.lookups@.len() && 0 <= r < gv.table.rows
                implies #[trigger] expr_rotations_ok(
            gv.cs.lookups@[l].input,
            r,
            gv.table.rows as int,
        ) by {
            assert(expr_rotations_ok(Expression::Advice { column: 0, rotation: 0 }, r, 32));
        }
        assert(Verifier::accepts(5, gcs, gtable, ginst));
    }
    let v = match Verifier::run(5, cs, table, instances) {
        Ok(v) => v,
        Err(_) => {
            proof {
                assert(false);
            }
            unreached()
        },
    };
    let flag = v.verify().is_ok();
    proof {
        assert(fake_root.as_int() == MODULUS as int - 3);
        assert(v.eval(v.cs.lookups@[0].input, 0) == Some(MODULUS as int - 3)) by {
            assert(v.adv_at(0, 0) == Some(MODULUS as int - 3));
        }
        assert forall|r: int| 0 <= r < v.rows() implies #[trigger] v.table_at(0, r) != Some(
            MODULUS as int - 3,
        ) by {
            if r < 11 {
                assert(crate::casino::casino2::table_val(v.table, 0, r) == Some(r));
            } else {
                assert(v.table.tables@[0]@[r] is None);
            }
        }
        assert(!v.table_contains(0, MODULUS as int - 3));
        assert(v.lookup_missing_at(0, 0));
        if v.lookups_ok() {
            assert(v.lookup_sat_at(0, 0));
        }
        assert(!v.ok());
    }
    flag
}

/// Hardened stage with the expected root 3: accepted.
fn stage_checked_honest() -> (flag: bool)
    ensures
        flag,
{
    proof {
        vstd::arithmetic::power2::lemma2_to64();
    }
    let n = FieldElement::from_u64(9);
    let root = FieldElement::from_u64(3);
    let circuit = sroot1::SquareRootCircuit { root: Value::known(root) };
    let mut cs = ConstraintSystem::new();
    let config = match sroot1::SquareRootCircuit::configure(&mut cs) {
        Ok(c) => c,
        Err(_) => {
            proof {
                assert(false);
            }
            unreached()
        },
    };
    let mut asn = match Assigner::new(&cs, 5) {
        Ok(x) => x,
        Err(_) => {
            proof {
                assert(false);
            }
            unreached()
        },
    };
    match circuit.synthesize(&config, &mut asn) {
        Ok(_) => {},
        Err(_) => {
            proof {
                assert(false);
            }
        },
    }
    let table = asn.finish();
    let instances = single_instance(n);
    let ghost gcs = cs;
    let ghost gtable = table;
    let ghost ginst = instances;
    proof {
        let gv = Verifier { k: 5, cs: gcs, table: gtable, instances: ginst };
        assert(gv.table.rows == 32);
        assert forall|cc: int| 0 <= cc < gv.instances@.len() implies (
        #[trigger] gv.instances@[cc])@.len() <= gv.table.rows by {
            assert(cc == 0);
        }
        assert((gv.num_advice() + gv.num_instance()) * gv.rows() == 96) by (nonlinear_arith)
            requires
                gv.num_advice() == 2,
                gv.num_instance() == 1,
                gv.rows() == 32,
        ;
        assert(gv.num_cells() == 96);
        assert(gv.shape_fits());
        assert forall|g: int, r: int, i: int|
            0 <= g < gv.cs.gates@.len() && 0 <= r < gv.table.rows && 0 <= i
                < gv.cs.gates@[g].polys@.len()
                && gv.table.selectors@[gv.cs.gates@[g].selector as int]@[r] implies #[trigger] expr_rotations_ok(
            gv.cs.gates@[g].polys@[i],
            r,
            gv.table.rows as int,
        ) by {
            lemma_sroot1_rotations(r);
        }
        assert forall|l: int, r: int|
            0 <= l < gv.cs.lookups@.len() && 0 <= r < gv.table.rows
                implies #[trigger] expr_rotations_ok(
            gv.cs.lookups@[l].input,
            r,
            gv.table.rows as int,
        ) by {
            assert(expr_rotations_ok(Expression::Advice { column: 0, rotation: 0 }, r, 32));
        }
        assert(Verifier::accepts(5, gcs, gtable, ginst));
    }
    let v = match Verifier::run(5, cs, table, instances) {
        Ok(v) => v,
        Err(_) => {
            proof {
                assert(false);
            }
            unreached()
        },
    };
    let flag = v.verify().is_ok();
    proof {
        assert(circuit.root.as_opt() == Some(3int));
        assert(v.table == gtable);
        assert(v.table.advice@[1]@[0].as_opt() == crate::value::opt_mul(
            circuit.root.as_opt(),
            circuit.root.as_opt(),
        ));
        assert((3int * 3int) % (MODULUS as int) == 9int);
        assert(v.adv_at(0, 0) == Some(3int));
        assert(v.adv_at(1, 0) == Some(9int));
        lemma_sroot1_poly_eval(v, 3int, 9int);
        lemma_sub_mod_zero_iff(9int, 9int);
        assert forall|g: int, r: int, i: int|
            0 <= g < v.cs.gates@.len() && 0 <= r < v.rows() && 0 <= i
                < v.cs.gates@[g].polys@.len() && v.sel_at(
                v.cs.gates@[g].selector as int,
                r,
            ) implies #[trigger] v.eval(v.cs.gates@[g].polys@[i], r) == Some(0int) by {
            if r != 0 {
                assert(v.table.selectors@[0]@[r] == false);
            }
            assert(r == 0);
            assert(v.eval(square_row_poly(0, 1), 0) == Some(0int));
        }
        assert forall|l: int, r: int|
            0 <= l < v.cs.lookups@.len() && 0 <= r < v.rows() implies #[trigger] v.lookup_sat_at(
            l,
            r,
        ) by {
            if r == 0 {
                assert(v.eval(v.cs.lookups@[0].input, 0) == Some(3int));
                assert(crate::casino::casino2::table_val(v.table, 0, 3) == Some(3int));
                assert(v.table_at(0, 3) == Some(3int));
                assert(v.table_contains(0, 3int));
            } else {
                assert(v.adv_at(0, r) == Some(0int));
                assert(v.eval(v.cs.lookups@[0].input, r) == Some(0int));
                assert(crate::casino::casino2::table_val(v.table, 0, 0) == Some(0int));
                assert(v.table_at(0, 0) == Some(0int));
                assert(v.table_contains(0, 0int));
            }
        }
        assert(v.cellref_val(CellRef::Advice { column: 1, row: 0 }) == Some(9int));
        assert(v.inst_at(0, 0) == 9int);
        lemma_lone_binding_agrees(v);
        assert(v.ok());
    }
    flag
}

/// [`square_row_poly`] over columns 0 and 1 has only zero rotations, so
/// it stays inside 32 rows at every row.
proof fn lemma_sroot1_rotations(r: int)
    requires
        0 <= r < 32,
    ensures
        expr_rotations_ok(square_row_poly(0, 1), r, 32),
{
    assert(expr_rotations_ok(Expression::Advice { column: 0, rotation: 0 }, r, 32));
    assert(expr_rotations_ok(Expression::Advice { column: 1, rotation: 0 }, r, 32));
    assert(expr_rotations_ok(
        Expression::Product(
            Box::new(Expression::Advice { column: 0, rotation: 0 }),
            Box::new(Expression::Advice { column: 0, rotation: 0 }),
        ),
        r,
        32,
    ));
    assert(expr_rotations_ok(
        Expression::Negate(Box::new(Expression::Advice { column: 1, rotation: 0 })),
        r,
        32,
    ));
}

/// Drives the square-root examples in turn.  Every flag is fixed by the
/// contract:
///
/// 1. ungated range: the wrapped-around root `-3` proves the square 9;
/// 2. range-checked stage rejects `-3`;
/// 3. range-checked stage accepts the expected root 3.
pub fn square_root() -> (r: Result<Vec<bool>, Error>)
    ensures
        r is Ok,
        r matches Ok(flags) ==> flags@ =~= seq![true, false, true],
{
    let mut flags: Vec<bool> = Vec::new();
    flags.push(stage_unbounded_root());
    flags.push(stage_checked_fake());
    flags.push(stage_checked_honest());
    Ok(flags)
}

} // verus!
