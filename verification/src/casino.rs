//! The casino accounting examples: a running-sum circuit in three stages
//! of hardening.
//!
//! The owner claims that the deposits add up to a public total.  The first
//! stage records values with no arithmetic constraint at all; the second
//! adds a running-sum gate but leaves individual deposits unbounded, so a
//! field-wraparound deposit can still fake any total; the third adds a
//! lookup range check that finally rejects the forgery.

use vstd::prelude::*;

use crate::assign::Assigner;
use crate::error::Error;
use crate::expression::Expression;
use crate::field::lemma_sub_mod_zero_iff;
use crate::field::FieldElement;
use crate::prover::Verifier;
use crate::value::Value;

pub mod casino0;
pub mod casino1;
pub mod casino2;
pub mod constrained;

verus! {

/// The sum of the first `n` deposit values, as an optional field value:
/// `Unknown` deposits poison the sum.
pub open spec fn deposits_sum(deposits: Seq<Value>, n: int) -> Option<int>
    decreases n,
{
    if n <= 0 {
        Some(0int)
    } else {
        crate::value::opt_add(deposits_sum(deposits, n - 1), deposits[n - 1].as_opt())
    }
}

/// The value of the running-sum polynomial over columns 0 (deposits)
/// and 1 (sums) at row `r`, given the three cells it reads.
pub proof fn lemma_running_poly_eval(v: Verifier, r: int, sp: int, d: int, sc: int)
    requires
        1 <= r,
        v.adv_at(1, r - 1) == Some(sp),
        v.adv_at(0, r) == Some(d),
        v.adv_at(1, r) == Some(sc),
    ensures
        v.eval(crate::casino::casino1::running_sum_poly(0, 1), r) == Some(
            ((sp + d) % (crate::field::MODULUS as int) + (0 - sc) % (
            crate::field::MODULUS as int)) % (crate::field::MODULUS as int),
        ),
{
    assert(v.eval(Expression::Advice { column: 1, rotation: -1i32 }, r) == Some(sp));
    assert(v.eval(Expression::Advice { column: 0, rotation: 0 }, r) == Some(d));
    assert(v.eval(Expression::Advice { column: 1, rotation: 0 }, r) == Some(sc));
    assert(v.eval(
        Expression::Sum(
            Box::new(Expression::Advice { column: 1, rotation: -1i32 }),
            Box::new(Expression::Advice { column: 0, rotation: 0 }),
        ),
        r,
    ) == Some((sp + d) % (crate::field::MODULUS as int)));
    assert(v.eval(
        Expression::Negate(Box::new(Expression::Advice { column: 1, rotation: 0 })),
        r,
    ) == Some((0 - sc) % (crate::field::MODULUS as int)));
}

/// The value of the total polynomial over the sum column 1 at row `r`.
pub proof fn lemma_total_poly_eval(v: Verifier, r: int, sp: int, sc: int)
    requires
        1 <= r,
        v.adv_at(1, r - 1) == Some(sp),
        v.adv_at(1, r) == Some(sc),
    ensures
        v.eval(crate::casino::casino1::total_poly(1), r) == Some(
            (sp + (0 - sc) % (crate::field::MODULUS as int)) % (crate::field::MODULUS as int),
        ),
{
    assert(v.eval(Expression::Advice { column: 1, rotation: -1i32 }, r) == Some(sp));
    assert(v.eval(Expression::Advice { column: 1, rotation: 0 }, r) == Some(sc));
    assert(v.eval(
        Expression::Negate(Box::new(Expression::Advice { column: 1, rotation: 0 })),
        r,
    ) == Some((0 - sc) % (crate::field::MODULUS as int)));
}

/// The running-sum polynomial reads rows `r-1` and `r`, so it stays
/// inside the circuit at every row after the first.
proof fn lemma_running_rotations(r: int, rows: int)
    requires
        1 <= r < rows,
    ensures
        crate::expression::expr_rotations_ok(
            crate::casino::casino1::running_sum_poly(0, 1),
            r,
            rows,
        ),
{
    assert(crate::expression::expr_rotations_ok(
        Expression::Advice { column: 1, rotation: -1i32 },
        r,
        rows,
    ));
    assert(crate::expression::expr_rotations_ok(
        Expression::Advice { column: 0, rotation: 0 },
        r,
        rows,
    ));
    assert(crate::expression::expr_rotations_ok(
        Expression::Sum(
            Box::new(Expression::Advice { column: 1, rotation: -1i32 }),
            Box::new(Expression::Advice { column: 0, rotation: 0 }),
        ),
        r,
        rows,
    ));
    assert(crate::expression::expr_rotations_ok(
        Expression::Advice { column: 1, rotation: 0 },
        r,
        rows,
    ));
    assert(crate::expression::expr_rotations_ok(
        Expression::Negate(Box::new(Expression::Advice { column: 1, rotation: 0 })),
        r,
        rows,
    ));
}

/// The total polynomial reads rows `r-1` and `r`, so it stays inside the
/// circuit at every row after the first.
proof fn lemma_total_rotations(r: int, rows: int)
    requires
        1 <= r < rows,
    ensures
        crate::expression::expr_rotations_ok(crate::casino::casino1::total_poly(1), r, rows),
{
    assert(crate::expression::expr_rotations_ok(
        Expression::Advice { column: 1, rotation: -1i32 },
        r,
        rows,
    ));
    assert(crate::expression::expr_rotations_ok(
        Expression::Advice { column: 1, rotation: 0 },
        r,
        rows,
    ));
    assert(crate::expression::expr_rotations_ok(
        Expression::Negate(Box::new(Expression::Advice { column: 1, rotation: 0 })),
        r,
        rows,
    ));
}

/// The three running-sum gates of a freshly configured casino shape stay
/// inside the circuit wherever their selectors are enabled, for the
/// selector rows the synthesis produces.
pub proof fn lemma_casino_gate_rotations(gv: Verifier, n: int)
    requires
        gv.cs.gates@.len() == 3,
        gv.cs.gates@[0].selector == 0,
        gv.cs.gates@[1].selector == 1,
        gv.cs.gates@[2].selector == 2,
        gv.cs.gates@[0].polys@ =~= crate::casino::casino1::first_row_polys(0, 1),
        gv.cs.gates@[1].polys@ =~= seq![crate::casino::casino1::running_sum_poly(0, 1)],
        gv.cs.gates@[2].polys@ =~= seq![crate::casino::casino1::total_poly(1)],
        gv.table.selectors@.len() == 3,
        0 <= n,
        n + 2 <= gv.table.rows,
        gv.table.selectors@[0]@ == Seq::new(gv.table.rows as nat, |x: int| false).update(0, true),
        forall|r: int|
            0 <= r < gv.table.rows && !(1 <= r <= n) ==> !(#[trigger] gv.table.selectors@[1]@[r]),
        gv.table.selectors@[2]@ == Seq::new(gv.table.rows as nat, |x: int| false).update(
            n + 1,
            true,
        ),
    ensures
        crate::prover::gate_rotations_ok(gv.cs, gv.table),
{
    assert forall|g: int, r: int, i: int|
        0 <= g < gv.cs.gates@.len() && 0 <= r < gv.table.rows && 0 <= i
            < gv.cs.gates@[g].polys@.len()
            && gv.table.selectors@[gv.cs.gates@[g].selector as int]@[r]
            implies #[trigger] crate::expression::expr_rotations_ok(
        gv.cs.gates@[g].polys@[i],
        r,
        gv.table.rows as int,
    ) by {
        if g == 0 {
            if r != 0 {
                assert(gv.table.selectors@[0]@[r] == false);
            }
            assert(r == 0);
            assert(crate::expression::expr_rotations_ok(
                Expression::Advice { column: 0, rotation: 0 },
                0,
                gv.table.rows as int,
            ));
            assert(crate::expression::expr_rotations_ok(
                Expression::Advice { column: 1, rotation: 0 },
                0,
                gv.table.rows as int,
            ));
        } else if g == 1 {
            assert(1 <= r <= n);
            lemma_running_rotations(r, gv.table.rows as int);
        } else {
            assert(g == 2);
            if r != n + 1 {
                assert(gv.table.selectors@[2]@[r] == false);
            }
            assert(r == n + 1);
            lemma_total_rotations(r, gv.table.rows as int);
        }
    }
}

/// One public-input vector holding just the claimed total.
pub fn single_instance(total: FieldElement) -> (r: Vec<Vec<FieldElement>>)
    ensures
        r@.len() == 1,
        r@[0]@ =~= Seq::empty().push(total),
{
    let mut column: Vec<FieldElement> = Vec::new();
    column.push(total);
    let mut instances: Vec<Vec<FieldElement>> = Vec::new();
    instances.push(column);
    instances
}

/// Drives the three casino stages in turn and reports each outcome:
///
/// 1. no constraints, last cell overwritten to the claimed total —
///    provably accepted (nothing but the copy to the instance constrains
///    the forged cell);
/// 2. running-sum gate, an extra wraparound deposit fakes the total —
///    provably accepted (the sum chain closes modulo the prime);
/// 3. range-checked stage provably rejects the wraparound deposit (the
///    lookup finds no table entry for it);
/// 4. range-checked stage provably rejects honest deposits that miss the
///    total (the total gate sees the shortfall);
/// 5. range-checked stage provably accepts deposits that meet the total.
///
/// Every flag is fixed by the contract: the whole chain — builder,
/// assigner, run and decision — is proved rather than observed.
#[verifier::rlimit(100)]
pub fn casino() -> (r: Result<Vec<bool>, Error>)
    ensures
        r is Ok,
        r matches Ok(flags) ==> flags@ =~= seq![true, true, false, false, true],
{
    proof {
        vstd::arithmetic::power2::lemma2_to64();
    }
    let total = FieldElement::from_u64(0x950);
    let d1 = FieldElement::from_u64(0x300);
    let d2 = FieldElement::from_u64(0x400);
    let d3 = FieldElement::from_u64(0x500);
    let mut flags: Vec<bool> = Vec::new();

    // Stage one: no gate constrains anything, so overwriting the output
    // cell with the expected total makes the forged witness pass.
    let mut deposits: Vec<Value> = Vec::new();
    deposits.push(Value::known(d1));
    deposits.push(Value::known(d2));
    deposits.push(Value::known(d3));
    let circuit = casino0::CasinoCircuit { deposits };
    let mut cs = crate::system::ConstraintSystem::new();
    let config = casino0::CasinoCircuit::configure(&mut cs)?;
    let mut asn = Assigner::new(&cs, 4)?;
    circuit.synthesize(&config, &mut asn)?;
    let table = asn.finish();
    let instances = single_instance(total);
    let ghost gcs = cs;
    let ghost gtable = table;
    let ghost ginst = instances;
    proof {
        let gv = Verifier { k: 4, cs: gcs, table: gtable, instances: ginst };
        assert(gv.table.rows == 16);
        assert forall|cc: int| 0 <= cc < gv.instances@.len() implies (
        #[trigger] gv.instances@[cc])@.len() <= gv.table.rows by {
            assert(cc == 0);
        }
        assert((gv.num_advice() + gv.num_instance()) * gv.rows() == 32) by (nonlinear_arith)
            requires
                gv.num_advice() == 1,
                gv.num_instance() == 1,
                gv.rows() == 16,
        ;
        assert(gv.num_cells() == 32);
        assert(gv.shape_fits());
        assert(Verifier::accepts(4, gcs, gtable, ginst));
    }
    let mut prover = Verifier::run(4, cs, table, instances)?;
    prover.override_advice(0, 3, Value::known(total))?;
    total.bounds();
    let accepted = prover.verify().is_ok();
    proof {
        assert(prover.cs.gates@.len() == 0);
        assert(prover.cs.lookups@.len() == 0);
        assert(prover.table.copies@.len() == 0);
        assert(prover.table.bindings@.len() == 1);
        assert(prover.cellref_val(
            crate::layout::CellRef::Advice {
                column: prover.table.bindings@[0].cell.column,
                row: prover.table.bindings@[0].cell.row,
            },
        ) == Some(total.as_int()));
        assert(prover.inst_at(0, 0) == total.as_int());
        crate::laws::lemma_lone_binding_agrees(prover);
        assert(accepted);
    }
    flags.push(accepted);

    // Stage two: the running-sum gate holds, but nothing bounds a single
    // deposit, so `total - sum (mod p)` is a valid extra deposit.
    let sum = d1.add(d2).add(d3);
    let fake = total.sub(sum);
    let mut deposits: Vec<Value> = Vec::new();
    deposits.push(Value::known(d1));
    deposits.push(Value::known(d2));
    deposits.push(Value::known(d3));
    deposits.push(Value::known(fake));
    let circuit = casino1::CasinoCircuit { deposits, total: Value::known(total) };
    let mut cs = crate::system::ConstraintSystem::new();
    let config = casino1::CasinoCircuit::configure(&mut cs)?;
    let mut asn = Assigner::new(&cs, 4)?;
    circuit.synthesize(&config, &mut asn)?;
    let table = asn.finish();
    let instances = single_instance(total);
    let ghost gcs = cs;
    let ghost gtable = table;
    let ghost ginst = instances;
    proof {
        let gv = Verifier { k: 4, cs: gcs, table: gtable, instances: ginst };
        assert(gv.table.rows == 16);
        assert forall|cc: int| 0 <= cc < gv.instances@.len() implies (
        #[trigger] gv.instances@[cc])@.len() <= gv.table.rows by {
            assert(cc == 0);
        }
        assert((gv.num_advice() + gv.num_instance()) * gv.rows() == 48) by (nonlinear_arith)
            requires
                gv.num_advice() == 2,
                gv.num_instance() == 1,
                gv.rows() == 16,
        ;
        assert(gv.num_cells() == 48);
        assert(gv.shape_fits());
        assert(gv.table.selectors@[0]@ == Seq::new(16, |x: int| false).update(0, true));
        assert(gv.table.selectors@[2]@ == Seq::new(16, |x: int| false).update(5, true));
        assert forall|r: int|
            0 <= r < gv.table.rows && !(1 <= r <= 4) implies !(
            #[trigger] gv.table.selectors@[1]@[r]) by {
            assert(gv.table.selectors@[1]@[r] == false);
        }
        lemma_casino_gate_rotations(gv, 4);
        assert(Verifier::accepts(4, gcs, gtable, ginst));
    }
    let prover = Verifier::run(4, cs, table, instances)?;
    total.bounds();
    let accepted = prover.verify().is_ok();
    proof {
        let m = crate::field::MODULUS as int;
        let deps = circuit.deposits@;
        assert(deps.len() == 4);
        assert(deps[0].as_opt() == Some(0x300int));
        assert(deps[1].as_opt() == Some(0x400int));
        assert(deps[2].as_opt() == Some(0x500int));
        assert(fake.as_int() == m - 0x2B0) by {
            assert(sum.as_int() == 0xC00int);
            vstd::arithmetic::div_mod::lemma_fundamental_div_mod_converse_mod(
                0x950 - 0xC00,
                m,
                -1,
                m - 0x2B0,
            );
        }
        assert(deposits_sum(deps, 0) == Some(0int));
        assert(deposits_sum(deps, 1) == Some(0x300int));
        assert(deposits_sum(deps, 2) == Some(0x700int));
        assert(deposits_sum(deps, 3) == Some(0xC00int));
        assert(deposits_sum(deps, 4) == Some(0x950int)) by {
            vstd::arithmetic::div_mod::lemma_fundamental_div_mod_converse_mod(
                0xC00 + (m - 0x2B0),
                m,
                1,
                0x950,
            );
        }
        // Cell values: deposits on rows 1..=4, sums beside them, the
        // claimed total on row 5.
        assert(prover.adv_at(0, 0) == Some(0int));
        assert(prover.adv_at(1, 0) == Some(0int));
        assert forall|g: int, r: int, i: int|
            0 <= g < prover.cs.gates@.len() && 0 <= r < prover.rows() && 0 <= i
                < prover.cs.gates@[g].polys@.len() && prover.sel_at(
                prover.cs.gates@[g].selector as int,
                r,
            ) implies #[trigger] prover.eval(prover.cs.gates@[g].polys@[i], r) == Some(
            0int,
        ) by {
            if g == 0 {
                // First-row gate: only row 0 is active, and both cells
                // are zero there.
                if r != 0 {
                    assert(prover.table.selectors@[0]@[r] == false);
                }
                assert(r == 0);
                if i == 0 {
                    assert(prover.eval(
                        Expression::Advice { column: 0, rotation: 0 },
                        0,
                    ) == Some(0int));
                } else {
                    assert(i == 1);
                    assert(prover.eval(
                        Expression::Advice { column: 1, rotation: 0 },
                        0,
                    ) == Some(0int));
                }
            } else if g == 1 {
                // Running-sum gate: rows 1..=4, each closing one link of
                // the chain.
                if !(1 <= r <= 4) {
                    assert(prover.table.selectors@[1]@[r] == false);
                }
                assert(1 <= r <= 4);
                assert(i == 0);
                let sp = deposits_sum(deps, r - 1).unwrap();
                let d = deps[r - 1].as_opt().unwrap();
                let sc = deposits_sum(deps, r).unwrap();
                let ii = r - 1;
                assert(0 <= ii < 4);
                assert(prover.table.advice@[0]@[0 + 1 + ii] == deps[ii]);
                assert((prover.table.advice@[1]@[0 + 1 + ii]).as_opt() == deposits_sum(
                    deps,
                    ii + 1,
                ));
                if ii >= 1 {
                    assert((prover.table.advice@[1]@[0 + 1 + (ii - 1)]).as_opt()
                        == deposits_sum(deps, ii));
                }
                assert(prover.adv_at(1, r - 1) == Some(sp));
                assert(prover.adv_at(0, r) == Some(d));
                assert(prover.adv_at(1, r) == Some(sc));
                lemma_running_poly_eval(prover, r, sp, d, sc);
                assert(sc == (sp + d) % m);
                lemma_sub_mod_zero_iff((sp + d) % m, sc);
            } else {
                // Total gate: row 5, where the claimed total repeats the
                // final sum.
                assert(g == 2);
                if r != 5 {
                    assert(prover.table.selectors@[2]@[r] == false);
                }
                assert(r == 5);
                assert(i == 0);
                assert((prover.table.advice@[1]@[0int + 1 + 3]).as_opt() == deposits_sum(deps, 4));
                assert(prover.adv_at(1, 4) == Some(0x950int));
                assert(prover.adv_at(1, 5) == Some(0x950int));
                lemma_total_poly_eval(prover, 5, 0x950int, 0x950int);
                lemma_sub_mod_zero_iff(0x950int, 0x950int);
            }
        }
        assert(prover.cellref_val(
            crate::layout::CellRef::Advice {
                column: prover.table.bindings@[0].cell.column,
                row: prover.table.bindings@[0].cell.row,
            },
        ) == Some(total.as_int()));
        assert(prover.inst_at(0, 0) == total.as_int());
        crate::laws::lemma_lone_binding_agrees(prover);
        assert(accepted);
    }
    flags.push(accepted);

    // Stage three: the lookup range check rejects the wraparound deposit.
    let mut deposits: Vec<Value> = Vec::new();
    deposits.push(Value::known(d1));
    deposits.push(Value::known(d2));
    deposits.push(Value::known(d3));
    deposits.push(Value::known(fake));
    let circuit = casino2::CasinoCircuit { deposits, total: Value::known(total) };
    let mut cs = crate::system::ConstraintSystem::new();
    let config = casino2::CasinoCircuit::configure(&mut cs)?;
    let mut asn = Assigner::new(&cs, 10)?;
    circuit.synthesize(&config, &mut asn)?;
    let table = asn.finish();
    let instances = single_instance(total);
    let ghost gcs = cs;
    let ghost gtable = table;
    let ghost ginst = instances;
    proof {
        let gv = Verifier { k: 10, cs: gcs, table: gtable, instances: ginst };
        assert(gv.table.rows == 1024);
        assert forall|cc: int| 0 <= cc < gv.instances@.len() implies (
        #[trigger] gv.instances@[cc])@.len() <= gv.table.rows by {
            assert(cc == 0);
        }
        assert((gv.num_advice() + gv.num_instance()) * gv.rows() == 3072) by (nonlinear_arith)
            requires
                gv.num_advice() == 2,
                gv.num_instance() == 1,
                gv.rows() == 1024,
        ;
        assert(gv.num_cells() == 3072);
        assert(gv.shape_fits());
        assert(gv.table.selectors@[0]@ == Seq::new(1024, |x: int| false).update(0, true));
        assert(gv.table.selectors@[2]@ == Seq::new(1024, |x: int| false).update(4int + 1, true));
        assert forall|r: int|
            0 <= r < gv.table.rows && !(1 <= r <= 4) implies !(
            #[trigger] gv.table.selectors@[1]@[r]) by {
            assert(gv.table.selectors@[1]@[r] == false);
        }
        lemma_casino_gate_rotations(gv, 4);
        assert forall|l: int, r: int|
            0 <= l < gv.cs.lookups@.len() && 0 <= r < gv.table.rows
                implies #[trigger] crate::expression::expr_rotations_ok(
            gv.cs.lookups@[l].input,
            r,
            gv.table.rows as int,
        ) by {
            assert(crate::expression::expr_rotations_ok(
                Expression::Advice { column: 0, rotation: 0 },
                r,
                1024,
            ));
        }
        assert(Verifier::accepts(10, gcs, gtable, ginst));
    }
    let prover = Verifier::run(10, cs, table, instances)?;
    let rejected = prover.verify().is_ok();
    proof {
        let m = crate::field::MODULUS as int;
        let deps = circuit.deposits@;
        assert(fake.as_int() == m - 0x2B0) by {
            assert(sum.as_int() == 0xC00int);
            vstd::arithmetic::div_mod::lemma_fundamental_div_mod_converse_mod(
                0x950 - 0xC00,
                m,
                -1,
                m - 0x2B0,
            );
        }
        assert(prover.table.advice@[0]@[1 + 3int] == deps[3]);
        assert(prover.eval(prover.cs.lookups@[0].input, 4) == Some(m - 0x2B0)) by {
            assert(prover.adv_at(0, 4) == Some(m - 0x2B0));
        }
        assert forall|r: int| 0 <= r < prover.rows() implies #[trigger] prover.table_at(0, r)
            != Some(m - 0x2B0) by {
            if r < 1000 {
                assert(crate::casino::casino2::table_val(prover.table, 0, r) == Some(r));
            } else {
                assert(prover.table.tables@[0]@[r] is None);
            }
        }
        assert(!prover.table_contains(0, m - 0x2B0));
        assert(prover.lookup_missing_at(0, 4));
        if prover.lookups_ok() {
            assert(prover.lookup_sat_at(0, 4));
        }
        assert(!rejected);
    }
    flags.push(rejected);

    // Honest in-range deposits that miss the total: the total gate fails.
    let mut deposits: Vec<Value> = Vec::new();
    deposits.push(Value::known(FieldElement::from_u64(300)));
    deposits.push(Value::known(FieldElement::from_u64(400)));
    deposits.push(Value::known(FieldElement::from_u64(500)));
    let circuit = casino2::CasinoCircuit { deposits, total: Value::known(total) };
    let mut cs = crate::system::ConstraintSystem::new();
    let config = casino2::CasinoCircuit::configure(&mut cs)?;
    let mut asn = Assigner::new(&cs, 10)?;
    circuit.synthesize(&config, &mut asn)?;
    let table = asn.finish();
    let instances = single_instance(total);
    let ghost gcs = cs;
    let ghost gtable = table;
    let ghost ginst = instances;
    proof {
        let gv = Verifier { k: 10, cs: gcs, table: gtable, instances: ginst };
        assert(gv.table.rows == 1024);
        assert forall|cc: int| 0 <= cc < gv.instances@.len() implies (
        #[trigger] gv.instances@[cc])@.len() <= gv.table.rows by {
            assert(cc == 0);
        }
        assert((gv.num_advice() + gv.num_instance()) * gv.rows() == 3072) by (nonlinear_arith)
            requires
                gv.num_advice() == 2,
                gv.num_instance() == 1,
                gv.rows() == 1024,
        ;
        assert(gv.num_cells() == 3072);
        assert(gv.shape_fits());
        assert(gv.table.selectors@[0]@ == Seq::new(1024, |x: int| false).update(0, true));
        assert(gv.table.selectors@[2]@ == Seq::new(1024, |x: int| false).update(3int + 1, true));
        assert forall|r: int|
            0 <= r < gv.table.rows && !(1 <= r <= 3) implies !(
            #[trigger] gv.table.selectors@[1]@[r]) by {
            assert(gv.table.selectors@[1]@[r] == false);
        }
        lemma_casino_gate_rotations(gv, 3);
        assert forall|l: int, r: int|
            0 <= l < gv.cs.lookups@.len() && 0 <= r < gv.table.rows
                implies #[trigger] crate::expression::expr_rotations_ok(
            gv.cs.lookups@[l].input,
            r,
            gv.table.rows as int,
        ) by {
            assert(crate::expression::expr_rotations_ok(
                Expression::Advice { column: 0, rotation: 0 },
                r,
                1024,
            ));
        }
        assert(Verifier::accepts(10, gcs, gtable, ginst));
    }
    let prover = Verifier::run(10, cs, table, instances)?;
    let rejected = prover.verify().is_ok();
    proof {
        let deps = circuit.deposits@;
        assert(deps.len() == 3);
        assert(deposits_sum(deps, 0) == Some(0int));
        assert(deposits_sum(deps, 1) == Some(300int));
        assert(deposits_sum(deps, 2) == Some(700int));
        assert(deposits_sum(deps, 3) == Some(1200int));
        assert((prover.table.advice@[1]@[0int + 1 + 2]).as_opt() == deposits_sum(deps, 3));
        assert(prover.adv_at(1, 3) == Some(1200int));
        assert(prover.adv_at(1, 4) == Some(0x950int));
        lemma_total_poly_eval(prover, 4, 1200int, 0x950int);
        lemma_sub_mod_zero_iff(1200int, 0x950int);
        assert(prover.eval(crate::casino::casino1::total_poly(1), 4) != Some(0int));
        assert(prover.sel_at(2, 4));
        if prover.gates_ok() {
            assert(prover.eval(prover.cs.gates@[2].polys@[0], 4) == Some(0int));
        }
        assert(!rejected);
    }
    flags.push(rejected);

    // Honest in-range deposits that meet the total: accepted.
    let mut deposits: Vec<Value> = Vec::new();
    deposits.push(Value::known(FieldElement::from_u64(700)));
    deposits.push(Value::known(FieldElement::from_u64(800)));
    deposits.push(Value::known(FieldElement::from_u64(884)));
    let circuit = casino2::CasinoCircuit { deposits, total: Value::known(total) };
    let mut cs = crate::system::ConstraintSystem::new();
    let config = casino2::CasinoCircuit::configure(&mut cs)?;
    let mut asn = Assigner::new(&cs, 10)?;
    circuit.synthesize(&config, &mut asn)?;
    let table = asn.finish();
    let instances = single_instance(total);
    let ghost gcs = cs;
    let ghost gtable = table;
    let ghost ginst = instances;
    proof {
        let gv = Verifier { k: 10, cs: gcs, table: gtable, instances: ginst };
        assert(gv.table.rows == 1024);
        assert forall|cc: int| 0 <= cc < gv.instances@.len() implies (
        #[trigger] gv.instances@[cc])@.len() <= gv.table.rows by {
            assert(cc == 0);
        }
        assert((gv.num_advice() + gv.num_instance()) * gv.rows() == 3072) by (nonlinear_arith)
            requires
                gv.num_advice() == 2,
                gv.num_instance() == 1,
                gv.rows() == 1024,
        ;
        assert(gv.num_cells() == 3072);
        assert(gv.shape_fits());
        assert(gv.table.selectors@[0]@ == Seq::new(1024, |x: int| false).update(0, true));
        assert(gv.table.selectors@[2]@ == Seq::new(1024, |x: int| false).update(3int + 1, true));
        assert forall|r: int|
            0 <= r < gv.table.rows && !(1 <= r <= 3) implies !(
            #[trigger] gv.table.selectors@[1]@[r]) by {
            assert(gv.table.selectors@[1]@[r] == false);
        }
        lemma_casino_gate_rotations(gv, 3);
        assert forall|l: int, r: int|
            0 <= l < gv.cs.lookups@.len() && 0 <= r < gv.table.rows
                implies #[trigger] crate::expression::expr_rotations_ok(
            gv.cs.lookups@[l].input,
            r,
            gv.table.rows as int,
        ) by {
            assert(crate::expression::expr_rotations_ok(
                Expression::Advice { column: 0, rotation: 0 },
                r,
                1024,
            ));
        }
        assert(Verifier::accepts(10, gcs, gtable, ginst));
    }
    let prover = Verifier::run(10, cs, table, instances)?;
    total.bounds();
    let accepted = prover.verify().is_ok();
    proof {
        let m = crate::field::MODULUS as int;
        let deps = circuit.deposits@;
        assert(deps.len() == 3);
        assert(deps[0].as_opt() == Some(700int));
        assert(deps[1].as_opt() == Some(800int));
        assert(deps[2].as_opt() == Some(884int));
        assert(deposits_sum(deps, 0) == Some(0int));
        assert(deposits_sum(deps, 1) == Some(700int));
        assert(deposits_sum(deps, 2) == Some(1500int));
        assert(deposits_sum(deps, 3) == Some(0x950int));
        assert(prover.adv_at(0, 0) == Some(0int));
        assert(prover.adv_at(1, 0) == Some(0int));
        assert forall|g: int, r: int, i: int|
            0 <= g < prover.cs.gates@.len() && 0 <= r < prover.rows() && 0 <= i
                < prover.cs.gates@[g].polys@.len() && prover.sel_at(
                prover.cs.gates@[g].selector as int,
                r,
            ) implies #[trigger] prover.eval(prover.cs.gates@[g].polys@[i], r) == Some(
            0int,
        ) by {
            if g == 0 {
                if r != 0 {
                    assert(prover.table.selectors@[0]@[r] == false);
                }
                assert(r == 0);
                if i == 0 {
                    assert(prover.eval(
                        Expression::Advice { column: 0, rotation: 0 },
                        0,
                    ) == Some(0int));
                } else {
                    assert(i == 1);
                    assert(prover.eval(
                        Expression::Advice { column: 1, rotation: 0 },
                        0,
                    ) == Some(0int));
                }
            } else if g == 1 {
                if !(1 <= r <= 3) {
                    assert(prover.table.selectors@[1]@[r] == false);
                }
                assert(1 <= r <= 3);
                assert(i == 0);
                let sp = deposits_sum(deps, r - 1).unwrap();
                let d = deps[r - 1].as_opt().unwrap();
                let sc = deposits_sum(deps, r).unwrap();
                let ii = r - 1;
                assert(0 <= ii < 3);
                assert(prover.table.advice@[0]@[0 + 1 + ii] == deps[ii]);
                assert((prover.table.advice@[1]@[0 + 1 + ii]).as_opt() == deposits_sum(
                    deps,
                    ii + 1,
                ));
                if ii >= 1 {
                    assert((prover.table.advice@[1]@[0 + 1 + (ii - 1)]).as_opt()
                        == deposits_sum(deps, ii));
                }
                assert(prover.adv_at(1, r - 1) == Some(sp));
                assert(prover.adv_at(0, r) == Some(d));
                assert(prover.adv_at(1, r) == Some(sc));
                lemma_running_poly_eval(prover, r, sp, d, sc);
                assert(sc == (sp + d) % m);
                lemma_sub_mod_zero_iff((sp + d) % m, sc);
            } else {
                assert(g == 2);
                if r != 4 {
                    assert(prover.table.selectors@[2]@[r] == false);
                }
                assert(r == 4);
                assert(i == 0);
                assert((prover.table.advice@[1]@[0int + 1 + 2]).as_opt() == deposits_sum(
                    deps,
                    3,
                ));
                assert(prover.adv_at(1, 3) == Some(0x950int));
                assert(prover.adv_at(1, 4) == Some(0x950int));
                lemma_total_poly_eval(prover, 4, 0x950int, 0x950int);
                lemma_sub_mod_zero_iff(0x950int, 0x950int);
            }
        }
        assert forall|l: int, r: int|
            0 <= l < prover.cs.lookups@.len() && 0 <= r < prover.rows()
                implies #[trigger] prover.lookup_sat_at(l, r) by {
            assert(l == 0);
            if r == 0 {
                assert(prover.eval(prover.cs.lookups@[0].input, 0) == Some(0int));
                assert(crate::casino::casino2::table_val(prover.table, 0, 0) == Some(0int));
                assert(prover.table_at(0, 0) == Some(0int));
                assert(prover.table_contains(0, 0int));
            } else if r <= 3 {
                let ii = r - 1;
                assert(prover.table.advice@[0]@[0 + 1 + ii] == deps[ii]);
                let d = deps[ii].as_opt().unwrap();
                assert(prover.eval(prover.cs.lookups@[0].input, r) == Some(d)) by {
                    assert(prover.adv_at(0, r) == Some(d));
                }
                assert(0 <= d < 1000);
                assert(crate::casino::casino2::table_val(prover.table, 0, d) == Some(d));
                assert(prover.table_at(0, d) == Some(d));
                assert(prover.table_contains(0, d)) by {
                    assert(0 <= d < prover.rows() && prover.table_at(0, d) == Some(d));
                }
            } else {
                assert(prover.eval(prover.cs.lookups@[0].input, r) == Some(0int)) by {
                    assert(prover.adv_at(0, r) == Some(0int));
                }
                assert(crate::casino::casino2::table_val(prover.table, 0, 0) == Some(0int));
                assert(prover.table_at(0, 0) == Some(0int));
                assert(prover.table_contains(0, 0int));
            }
        }
        assert(prover.cellref_val(
            crate::layout::CellRef::Advice {
                column: prover.table.bindings@[0].cell.column,
                row: prover.table.bindings@[0].cell.row,
            },
        ) == Some(total.as_int()));
        assert(prover.inst_at(0, 0) == total.as_int());
        crate::laws::lemma_lone_binding_agrees(prover);
        assert(accepted);
    }
    flags.push(accepted);

    Ok(flags)
}

} // verus!
