//! The Merkle-path examples, with addition standing in for the hash.
//!
//! A prover climbs the tree one layer at a time: each layer swaps the
//! running node with its neighbor according to a path bit, then combines
//! the two.  The first variant constrains the combination with a gate; the
//! second forgets that gate, so a fabricated root passes.  Both accept a
//! "path" of zero layers whose leaf simply equals the root — the
//! demonstration's point.

use vstd::prelude::*;

use crate::assign::Assigner;
use crate::casino::single_instance;
use crate::error::Error;
use crate::expression::Expression;
use crate::field::FieldElement;
use crate::layout::CellRef;
use crate::permutation::related;
use crate::prover::Verifier;
use crate::system::ConstraintSystem;
use crate::value::Value;

pub mod merkle_nohash1;
pub mod merkle_nohash2;

verus! {

/// A zero-layer Merkle run whose leaf equals the public root: no
/// selector is ever enabled, so no gate fires, and the lone instance
/// binding agrees — the run is accepted.  This is the demonstration's
/// point: both variants accept it, gates or not.
proof fn prove_fake_acceptance(v: Verifier, leaf_cell_val: int)
    requires
        v.wf(),
        v.cs.lookups@.len() == 0,
        v.table.copies@.len() == 0,
        v.table.bindings@.len() == 1,
        forall|s: int, row: int|
            0 <= s < v.table.selectors@.len() && 0 <= row < v.table.rows ==> !(
            #[trigger] v.table.selectors@[s]@[row]),
        v.cellref_val(
            CellRef::Advice {
                column: v.table.bindings@[0].cell.column,
                row: v.table.bindings@[0].cell.row,
            },
        ) == Some(leaf_cell_val),
        v.inst_at(
            v.table.bindings@[0].column as int,
            v.table.bindings@[0].row as int,
        ) == leaf_cell_val,
    ensures
        v.ok(),
{
    {
        assert forall|g: int, r: int, i: int|
            0 <= g < v.cs.gates@.len() && 0 <= r < v.rows() && 0 <= i
                < v.cs.gates@[g].polys@.len() && v.sel_at(
                v.cs.gates@[g].selector as int,
                r,
            ) implies #[trigger] v.eval(v.cs.gates@[g].polys@[i], r) == Some(0int) by {
            assert(v.cs.gates@[g].wf(
                v.num_advice(),
                v.num_instance(),
                v.cs.num_selectors as int,
            ));
            assert(!v.table.selectors@[v.cs.gates@[g].selector as int]@[r]);
        }
        crate::laws::lemma_lone_binding_agrees(v);
    }
}

/// The value of the boolean gate polynomial over the bit column 2 at
/// row `r`, for a zero bit: zero.
proof fn lemma_bool_poly_zero(v: Verifier, r: int, one: FieldElement)
    requires
        v.adv_at(2, r) == Some(0int),
        one.as_int() == 1,
    ensures
        v.eval(merkle_nohash1::bool_gate_poly(2, one), r) == Some(0int),
{
    let m = crate::field::MODULUS as int;
    assert(v.eval(Expression::Advice { column: 2, rotation: 0 }, r) == Some(0int));
    assert(v.eval(Expression::Constant(one), r) == Some(1int));
    assert(v.eval(
        Expression::Negate(Box::new(Expression::Advice { column: 2, rotation: 0 })),
        r,
    ) == Some((0 - 0) % m));
    assert(v.eval(
        Expression::Sum(
            Box::new(Expression::Constant(one)),
            Box::new(Expression::Negate(Box::new(Expression::Advice { column: 2, rotation: 0 }))),
        ),
        r,
    ) == Some((1 + (0 - 0) % m) % m));
    assert((1 + (0 - 0) % m) % m == 1);
}

/// The value of the first swap polynomial over columns (0, 1, 2) at row
/// `r`, for a zero bit and an unchanged next row: zero.
proof fn lemma_swap_left_zero(v: Verifier, r: int, l: int, rr: int)
    requires
        0 <= l < crate::field::MODULUS as int,
        v.adv_at(0, r) == Some(l),
        v.adv_at(1, r) == Some(rr),
        v.adv_at(2, r) == Some(0int),
        v.adv_at(0, r + 1) == Some(l),
    ensures
        v.eval(merkle_nohash1::swap_poly_left(0, 1, 2), r) == Some(0int),
{
    let m = crate::field::MODULUS as int;
    assert(v.eval(Expression::Advice { column: 0, rotation: 0 }, r) == Some(l));
    assert(v.eval(Expression::Advice { column: 1, rotation: 0 }, r) == Some(rr));
    assert(v.eval(Expression::Advice { column: 2, rotation: 0 }, r) == Some(0int));
    assert(v.eval(Expression::Advice { column: 0, rotation: 1 }, r) == Some(l));
    let diff = (rr + (0 - l) % m) % m;
    assert(v.eval(
        Expression::Negate(Box::new(Expression::Advice { column: 0, rotation: 0 })),
        r,
    ) == Some((0 - l) % m));
    assert(v.eval(
        Expression::Negate(Box::new(Expression::Advice { column: 0, rotation: 1 })),
        r,
    ) == Some((0 - l) % m));
    assert(v.eval(
        Expression::Sum(
            Box::new(Expression::Advice { column: 1, rotation: 0 }),
            Box::new(Expression::Negate(Box::new(Expression::Advice { column: 0, rotation: 0 }))),
        ),
        r,
    ) == Some(diff));
    assert(v.eval(
        Expression::Product(
            Box::new(
                Expression::Sum(
                    Box::new(Expression::Advice { column: 1, rotation: 0 }),
                    Box::new(
                        Expression::Negate(
                            Box::new(Expression::Advice { column: 0, rotation: 0 }),
                        ),
                    ),
                ),
            ),
            Box::new(Expression::Advice { column: 2, rotation: 0 }),
        ),
        r,
    ) == Some((diff * 0) % m));
    assert((diff * 0) % m == 0);
    assert(v.eval(
        Expression::Sum(
            Box::new(
                Expression::Product(
                    Box::new(
                        Expression::Sum(
                            Box::new(Expression::Advice { column: 1, rotation: 0 }),
                            Box::new(
                                Expression::Negate(
                                    Box::new(Expression::Advice { column: 0, rotation: 0 }),
                                ),
                            ),
                        ),
                    ),
                    Box::new(Expression::Advice { column: 2, rotation: 0 }),
                ),
            ),
            Box::new(Expression::Advice { column: 0, rotation: 0 }),
        ),
        r,
    ) == Some((0 + l) % m));
    vstd::arithmetic::div_mod::lemma_small_mod(l as nat, crate::field::MODULUS as nat);
    crate::field::lemma_sub_mod_zero_iff(l, l);
}

/// The value of the second swap polynomial over columns (0, 1, 2) at row
/// `r`, for a zero bit and an unchanged next row: zero.
proof fn lemma_swap_right_zero(v: Verifier, r: int, l: int, rr: int)
    requires
        0 <= rr < crate::field::MODULUS as int,
        v.adv_at(0, r) == Some(l),
        v.adv_at(1, r) == Some(rr),
        v.adv_at(2, r) == Some(0int),
        v.adv_at(1, r + 1) == Some(rr),
    ensures
        v.eval(merkle_nohash1::swap_poly_right(0, 1, 2), r) == Some(0int),
{
    let m = crate::field::MODULUS as int;
    assert(v.eval(Expression::Advice { column: 0, rotation: 0 }, r) == Some(l));
    assert(v.eval(Expression::Advice { column: 1, rotation: 0 }, r) == Some(rr));
    assert(v.eval(Expression::Advice { column: 2, rotation: 0 }, r) == Some(0int));
    assert(v.eval(Expression::Advice { column: 1, rotation: 1 }, r) == Some(rr));
    let diff = (l + (0 - rr) % m) % m;
    assert(v.eval(
        Expression::Negate(Box::new(Expression::Advice { column: 1, rotation: 0 })),
        r,
    ) == Some((0 - rr) % m));
    assert(v.eval(
        Expression::Negate(Box::new(Expression::Advice { column: 1, rotation: 1 })),
        r,
    ) == Some((0 - rr) % m));
    assert(v.eval(
        Expression::Sum(
            Box::new(Expression::Advice { column: 0, rotation: 0 }),
            Box::new(Expression::Negate(Box::new(Expression::Advice { column: 1, rotation: 0 }))),
        ),
        r,
    ) == Some(diff));
    assert(v.eval(
        Expression::Product(
            Box::new(
                Expression::Sum(
                    Box::new(Expression::Advice { column: 0, rotation: 0 }),
                    Box::new(
                        Expression::Negate(
                            Box::new(Expression::Advice { column: 1, rotation: 0 }),
                        ),
                    ),
                ),
            ),
            Box::new(Expression::Advice { column: 2, rotation: 0 }),
        ),
        r,
    ) == Some((diff * 0) % m));
    assert((diff * 0) % m == 0);
    assert(v.eval(
        Expression::Sum(
            Box::new(
                Expression::Product(
                    Box::new(
                        Expression::Sum(
                            Box::new(Expression::Advice { column: 0, rotation: 0 }),
                            Box::new(
                                Expression::Negate(
                                    Box::new(Expression::Advice { column: 1, rotation: 0 }),
                                ),
                            ),
                        ),
                    ),
                    Box::new(Expression::Advice { column: 2, rotation: 0 }),
                ),
            ),
            Box::new(Expression::Advice { column: 1, rotation: 0 }),
        ),
        r,
    ) == Some((0 + rr) % m));
    vstd::arithmetic::div_mod::lemma_small_mod(rr as nat, crate::field::MODULUS as nat);
    crate::field::lemma_sub_mod_zero_iff(rr, rr);
}

/// The value of the combination gate polynomial over columns (0, 1, 2)
/// at row `r`: zero when the digest is the reduced sum of the pair.
proof fn lemma_hash_poly_zero(v: Verifier, r: int, l: int, rr: int, d: int)
    requires
        v.adv_at(0, r) == Some(l),
        v.adv_at(1, r) == Some(rr),
        v.adv_at(2, r) == Some(d),
        d == (l + rr) % (crate::field::MODULUS as int),
    ensures
        v.eval(merkle_nohash1::hash_gate_poly(0, 1, 2), r) == Some(0int),
{
    let m = crate::field::MODULUS as int;
    assert(v.eval(Expression::Advice { column: 0, rotation: 0 }, r) == Some(l));
    assert(v.eval(Expression::Advice { column: 1, rotation: 0 }, r) == Some(rr));
    assert(v.eval(Expression::Advice { column: 2, rotation: 0 }, r) == Some(d));
    assert(v.eval(
        Expression::Sum(
            Box::new(Expression::Advice { column: 0, rotation: 0 }),
            Box::new(Expression::Advice { column: 1, rotation: 0 }),
        ),
        r,
    ) == Some((l + rr) % m));
    assert(v.eval(
        Expression::Negate(Box::new(Expression::Advice { column: 2, rotation: 0 })),
        r,
    ) == Some((0 - d) % m));
    crate::field::lemma_sub_mod_zero_iff((l + rr) % m, d);
}

/// The four Merkle polynomials stay inside `rows` rows at row `r`, one
/// row before the last.
proof fn lemma_merkle_rotations(r: int, rows: int, one: FieldElement)
    requires
        0 <= r,
        r + 1 < rows,
    ensures
        crate::expression::expr_rotations_ok(merkle_nohash1::bool_gate_poly(2, one), r, rows),
        crate::expression::expr_rotations_ok(merkle_nohash1::swap_poly_left(0, 1, 2), r, rows),
        crate::expression::expr_rotations_ok(merkle_nohash1::swap_poly_right(0, 1, 2), r, rows),
        crate::expression::expr_rotations_ok(merkle_nohash1::hash_gate_poly(0, 1, 2), r, rows),
{
    assert(crate::expression::expr_rotations_ok(
        Expression::Advice { column: 0, rotation: 0 },
        r,
        rows,
    ));
    assert(crate::expression::expr_rotations_ok(
        Expression::Advice { column: 1, rotation: 0 },
        r,
        rows,
    ));
    assert(crate::expression::expr_rotations_ok(
        Expression::Advice { column: 2, rotation: 0 },
        r,
        rows,
    ));
    assert(crate::expression::expr_rotations_ok(
        Expression::Advice { column: 0, rotation: 1 },
        r,
        rows,
    ));
    assert(crate::expression::expr_rotations_ok(
        Expression::Advice { column: 1, rotation: 1 },
        r,
        rows,
    ));
    assert(crate::expression::expr_rotations_ok(Expression::Constant(one), r, rows));
    assert(crate::expression::expr_rotations_ok(
        Expression::Negate(Box::new(Expression::Advice { column: 2, rotation: 0 })),
        r,
        rows,
    ));
    assert(crate::expression::expr_rotations_ok(
        Expression::Sum(
            Box::new(Expression::Constant(one)),
            Box::new(Expression::Negate(Box::new(Expression::Advice { column: 2, rotation: 0 }))),
        ),
        r,
        rows,
    ));
    assert(crate::expression::expr_rotations_ok(
        Expression::Negate(Box::new(Expression::Advice { column: 0, rotation: 0 })),
        r,
        rows,
    ));
    assert(crate::expression::expr_rotations_ok(
        Expression::Negate(Box::new(Expression::Advice { column: 1, rotation: 0 })),
        r,
        rows,
    ));
    assert(crate::expression::expr_rotations_ok(
        Expression::Negate(Box::new(Expression::Advice { column: 0, rotation: 1 })),
        r,
        rows,
    ));
    assert(crate::expression::expr_rotations_ok(
        Expression::Negate(Box::new(Expression::Advice { column: 1, rotation: 1 })),
        r,
        rows,
    ));
    assert(crate::expression::expr_rotations_ok(
        Expression::Sum(
            Box::new(Expression::Advice { column: 1, rotation: 0 }),
            Box::new(Expression::Negate(Box::new(Expression::Advice { column: 0, rotation: 0 }))),
        ),
        r,
        rows,
    ));
    assert(crate::expression::expr_rotations_ok(
        Expression::Product(
            Box::new(
                Expression::Sum(
                    Box::new(Expression::Advice { column: 1, rotation: 0 }),
                    Box::new(
                        Expression::Negate(
                            Box::new(Expression::Advice { column: 0, rotation: 0 }),
                        ),
                    ),
                ),
            ),
            Box::new(Expression::Advice { column: 2, rotation: 0 }),
        ),
        r,
        rows,
    ));
    assert(crate::expression::expr_rotations_ok(
        Expression::Sum(
            Box::new(
                Expression::Product(
                    Box::new(
                        Expression::Sum(
                            Box::new(Expression::Advice { column: 1, rotation: 0 }),
                            Box::new(
                                Expression::Negate(
                                    Box::new(Expression::Advice { column: 0, rotation: 0 }),
                                ),
                            ),
                        ),
                    ),
                    Box::new(Expression::Advice { column: 2, rotation: 0 }),
                ),
            ),
            Box::new(Expression::Advice { column: 0, rotation: 0 }),
        ),
        r,
        rows,
    ));
    assert(crate::expression::expr_rotations_ok(
        Expression::Sum(
            Box::new(Expression::Advice { column: 0, rotation: 0 }),
            Box::new(Expression::Negate(Box::new(Expression::Advice { column: 1, rotation: 0 }))),
        ),
        r,
        rows,
    ));
    assert(crate::expression::expr_rotations_ok(
        Expression::Product(
            Box::new(
                Expression::Sum(
                    Box::new(Expression::Advice { column: 0, rotation: 0 }),
                    Box::new(
                        Expression::Negate(
                            Box::new(Expression::Advice { column: 1, rotation: 0 }),
                        ),
                    ),
                ),
            ),
            Box::new(Expression::Advice { column: 2, rotation: 0 }),
        ),
        r,
        rows,
    ));
    assert(crate::expression::expr_rotations_ok(
        Expression::Sum(
            Box::new(
                Expression::Product(
                    Box::new(
                        Expression::Sum(
                            Box::new(Expression::Advice { column: 0, rotation: 0 }),
                            Box::new(
                                Expression::Negate(
                                    Box::new(Expression::Advice { column: 1, rotation: 0 }),
                                ),
                            ),
                        ),
                    ),
                    Box::new(Expression::Advice { column: 2, rotation: 0 }),
                ),
            ),
            Box::new(Expression::Advice { column: 1, rotation: 0 }),
        ),
        r,
        rows,
    ));
    assert(crate::expression::expr_rotations_ok(
        Expression::Sum(
            Box::new(Expression::Advice { column: 0, rotation: 0 }),
            Box::new(Expression::Advice { column: 1, rotation: 0 }),
        ),
        r,
        rows,
    ));
}

/// Drives the checked Merkle variant: an honest two-layer path for the root
/// `(2 + 5) + (11 + 20)`, then a zero-layer "path" whose leaf is the root
/// itself.  The second is provably accepted — no gate ever fires — and the
/// first's outcome is pinned by the tests.
#[verifier::rlimit(100)]
pub fn merke_nohash1() -> (r: Result<Vec<bool>, Error>)
    ensures
        r is Ok,
        r matches Ok(flags) ==> flags@ =~= seq![true, true],
{
    proof {
        vstd::arithmetic::power2::lemma2_to64();
    }
    let leaf = FieldElement::from_u64(2);
    let sibling = FieldElement::from_u64(5);
    let h2 = FieldElement::from_u64(11).add(FieldElement::from_u64(20));
    let root = leaf.add(sibling).add(h2);
    let mut flags: Vec<bool> = Vec::new();

    // Honest two-layer path, built layer by layer so that every cell the
    // proof needs is pinned by the layer contracts.
    let mut path_elements: Vec<Value> = Vec::new();
    path_elements.push(Value::known(sibling));
    path_elements.push(Value::known(h2));
    let mut path_indices: Vec<Value> = Vec::new();
    path_indices.push(Value::known(FieldElement::zero()));
    path_indices.push(Value::known(FieldElement::zero()));
    let circuit = merkle_nohash1::MerkleCircuitNoHash1 {
        leaf: Value::known(leaf),
        path_elements,
        path_indices,
    };
    let mut cs = ConstraintSystem::new();
    let config = merkle_nohash1::MerkleCircuitNoHash1::configure(&mut cs)?;
    let mut asn = Assigner::new(&cs, 4)?;
    asn.begin_region();
    let leaf_cell = asn.assign_advice(config.left, 0, Value::known(leaf))?;
    let (d1_cell, d1_val) = circuit.merkle_prove_layer(
        &config,
        &mut asn,
        leaf_cell,
        Value::known(leaf),
        Value::known(sibling),
        Value::known(FieldElement::zero()),
    )?;
    let (d2_cell, _) = circuit.merkle_prove_layer(
        &config,
        &mut asn,
        d1_cell,
        d1_val,
        Value::known(h2),
        Value::known(FieldElement::zero()),
    )?;
    asn.constrain_instance(d2_cell, config.root_hash, 0)?;
    let table = asn.finish();
    let instances = single_instance(root);
    let ghost gcs = cs;
    let ghost gtable = table;
    let ghost ginst = instances;
    proof {
        let gv = Verifier { k: 4, cs: gcs, table: gtable, instances: ginst };
        assert(gv.table.rows == 16);
        assert forall|cc: int| 0 <= cc < gv.instances@.len() implies (
        #[trigger] gv.instances@[cc])@.len() <= gv.table.rows by {
            assert(cc == 0);
        }
        assert((gv.num_advice() + gv.num_instance()) * gv.rows() == 64) by (nonlinear_arith)
            requires
                gv.num_advice() == 3,
                gv.num_instance() == 1,
                gv.rows() == 16,
        ;
        assert(gv.num_cells() == 64);
        assert(gv.shape_fits());
        assert(gv.table.selectors@[0]@ == Seq::new(16, |x: int| false).update(1, true).update(
            3,
            true,
        ));
        assert(gv.table.selectors@[1]@ == Seq::new(16, |x: int| false).update(1, true).update(
            3,
            true,
        ));
        assert(gv.table.selectors@[2]@ == Seq::new(16, |x: int| false).update(2, true).update(
            4,
            true,
        ));
        let one = choose|one: FieldElement|
            one.as_int() == 1 && gv.cs.gates@[0].polys@ =~= seq![
                #[trigger] merkle_nohash1::bool_gate_poly(2, one),
            ];
        assert forall|g: int, r: int, i: int|
            0 <= g < gv.cs.gates@.len() && 0 <= r < gv.table.rows && 0 <= i
                < gv.cs.gates@[g].polys@.len()
                && gv.table.selectors@[gv.cs.gates@[g].selector as int]@[r]
                implies #[trigger] crate::expression::expr_rotations_ok(
            gv.cs.gates@[g].polys@[i],
            r,
            gv.table.rows as int,
        ) by {
            if g == 2 {
                if r != 2 && r != 4 {
                    assert(gv.table.selectors@[2]@[r] == false);
                }
                assert(r == 2 || r == 4);
                lemma_merkle_rotations(r, 16, one);
            } else {
                if r != 1 && r != 3 {
                    assert(gv.table.selectors@[gv.cs.gates@[g].selector as int]@[r] == false);
                }
                assert(r == 1 || r == 3);
                lemma_merkle_rotations(r, 16, one);
            }
        }
        assert(Verifier::accepts(4, gcs, gtable, ginst));
    }
    let prover = Verifier::run(4, cs, table, instances)?;
    let accepted = prover.verify().is_ok();
    proof {
        let m = crate::field::MODULUS as int;
        let one = choose|one: FieldElement|
            one.as_int() == 1 && prover.cs.gates@[0].polys@ =~= seq![
                #[trigger] merkle_nohash1::bool_gate_poly(2, one),
            ];
        // Cell values along the two layers.
        assert(prover.adv_at(0, 0) == Some(2int));
        assert(prover.adv_at(0, 1) == Some(2int));
        assert(prover.adv_at(1, 1) == Some(5int));
        assert(prover.adv_at(2, 1) == Some(0int));
        assert(prover.adv_at(0, 2) == Some(2int));
        assert(prover.adv_at(1, 2) == Some(5int));
        assert(prover.adv_at(2, 2) == Some(7int));
        assert(d1_val.as_opt() == Some(7int));
        assert(prover.adv_at(0, 3) == Some(7int));
        assert(prover.adv_at(1, 3) == Some(31int));
        assert(prover.adv_at(2, 3) == Some(0int));
        assert(prover.adv_at(0, 4) == Some(7int));
        assert(prover.adv_at(1, 4) == Some(31int));
        assert(prover.adv_at(2, 4) == Some(38int));
        assert forall|g: int, r: int, i: int|
            0 <= g < prover.cs.gates@.len() && 0 <= r < prover.rows() && 0 <= i
                < prover.cs.gates@[g].polys@.len() && prover.sel_at(
                prover.cs.gates@[g].selector as int,
                r,
            ) implies #[trigger] prover.eval(prover.cs.gates@[g].polys@[i], r) == Some(
            0int,
        ) by {
            if g == 0 {
                if r != 1 && r != 3 {
                    assert(prover.table.selectors@[1]@[r] == false);
                }
                assert(r == 1 || r == 3);
                lemma_bool_poly_zero(prover, r, one);
            } else if g == 1 {
                if r != 1 && r != 3 {
                    assert(prover.table.selectors@[0]@[r] == false);
                }
                assert(r == 1 || r == 3);
                if r == 1 {
                    if i == 0 {
                        lemma_swap_left_zero(prover, 1, 2int, 5int);
                    } else {
                        assert(i == 1);
                        lemma_swap_right_zero(prover, 1, 2int, 5int);
                    }
                } else {
                    if i == 0 {
                        lemma_swap_left_zero(prover, 3, 7int, 31int);
                    } else {
                        assert(i == 1);
                        lemma_swap_right_zero(prover, 3, 7int, 31int);
                    }
                }
            } else {
                assert(g == 2);
                if r != 2 && r != 4 {
                    assert(prover.table.selectors@[2]@[r] == false);
                }
                assert(r == 2 || r == 4);
                if r == 2 {
                    lemma_hash_poly_zero(prover, 2, 2int, 5int, 7int);
                } else {
                    lemma_hash_poly_zero(prover, 4, 7int, 31int, 38int);
                }
            }
        }
        // The three copy classes: leaf with its copy, first digest with
        // the next layer's input, final digest with the public root.
        assert(prover.pair_ids() =~= seq![(0nat, 1nat), (34nat, 3nat), (36nat, 48nat)]);
        assert(prover.id_val(0) == Some(2int));
        assert(prover.id_val(1) == Some(2int));
        assert(prover.id_val(34) == Some(7int));
        assert(prover.id_val(3) == Some(7int));
        assert(prover.id_val(36) == Some(38int));
        assert(prover.instances@[0]@[0].as_int() == 38int);
        assert(prover.inst_at(0, 0) == 38int);
        assert(prover.id_val(48) == Some(38int));
        assert forall|x: nat, y: nat|
            #[trigger] related(prover.pair_ids(), x, y) implies prover.ids_agree(x, y) by {
            let f = |id: nat|
                if id == 0 || id == 1 {
                    0nat
                } else if id == 34 || id == 3 {
                    1nat
                } else if id == 36 || id == 48 {
                    2nat
                } else {
                    id + 100
                };
            crate::permutation::lemma_related_respects(prover.pair_ids(), f, x, y);
        }
        assert forall|i: int|
            0 <= i < prover.pair_ids().len() implies #[trigger] prover.pair_reaches_value(i) by {
            crate::permutation::lemma_related_refl(prover.pair_ids(), prover.pair_ids()[i].0);
            assert(related(prover.pair_ids(), prover.pair_ids()[i].0, prover.pair_ids()[i].0)
                && prover.id_val(prover.pair_ids()[i].0 as int) is Some);
        }
        assert(prover.ok());
        assert(accepted);
    }
    flags.push(accepted);

    let circuit = merkle_nohash1::MerkleCircuitNoHash1 {
        leaf: Value::known(root),
        path_elements: Vec::new(),
        path_indices: Vec::new(),
    };
    let mut cs = ConstraintSystem::new();
    let config = merkle_nohash1::MerkleCircuitNoHash1::configure(&mut cs)?;
    let mut asn = Assigner::new(&cs, 4)?;
    circuit.synthesize(&config, &mut asn)?;
    let table = asn.finish();
    let instances = single_instance(root);
    let ghost gcs2 = cs;
    let ghost gtable2 = table;
    let ghost ginst2 = instances;
    proof {
        let gv = Verifier { k: 4, cs: gcs2, table: gtable2, instances: ginst2 };
        assert(gv.table.rows == 16);
        assert forall|cc: int| 0 <= cc < gv.instances@.len() implies (
        #[trigger] gv.instances@[cc])@.len() <= gv.table.rows by {
            assert(cc == 0);
        }
        assert((gv.num_advice() + gv.num_instance()) * gv.rows() == 64) by (nonlinear_arith)
            requires
                gv.num_advice() == 3,
                gv.num_instance() == 1,
                gv.rows() == 16,
        ;
        assert(gv.num_cells() == 64);
        assert(gv.shape_fits());
        assert forall|g: int, r: int, i: int|
            0 <= g < gv.cs.gates@.len() && 0 <= r < gv.table.rows && 0 <= i
                < gv.cs.gates@[g].polys@.len()
                && gv.table.selectors@[gv.cs.gates@[g].selector as int]@[r]
                implies #[trigger] crate::expression::expr_rotations_ok(
            gv.cs.gates@[g].polys@[i],
            r,
            gv.table.rows as int,
        ) by {
            assert(!gv.table.selectors@[gv.cs.gates@[g].selector as int]@[r]);
        }
        assert(Verifier::accepts(4, gcs2, gtable2, ginst2));
    }
    let prover = Verifier::run(4, cs, table, instances)?;
    root.bounds();
    let accepted = prover.verify().is_ok();
    proof {
        prove_fake_acceptance(prover, root.as_int());
        assert(accepted);
    }
    flags.push(accepted);

    Ok(flags)
}

/// Drives the ungated Merkle variant: the honest two-layer path, then the
/// zero-layer "path".  The second is provably accepted here too.
#[verifier::rlimit(100)]
pub fn merke_nohash2() -> (r: Result<Vec<bool>, Error>)
    ensures
        r is Ok,
        r matches Ok(flags) ==> flags@ =~= seq![true, true],
{
    proof {
        vstd::arithmetic::power2::lemma2_to64();
    }
    let leaf = FieldElement::from_u64(2);
    let sibling = FieldElement::from_u64(5);
    let h2 = FieldElement::from_u64(11).add(FieldElement::from_u64(20));
    let root = leaf.add(sibling).add(h2);
    let mut flags: Vec<bool> = Vec::new();

    // Honest two-layer path, built layer by layer so that every cell the
    // proof needs is pinned by the layer contracts.
    let mut path_elements: Vec<Value> = Vec::new();
    path_elements.push(Value::known(sibling));
    path_elements.push(Value::known(h2));
    let mut path_indices: Vec<Value> = Vec::new();
    path_indices.push(Value::known(FieldElement::zero()));
    path_indices.push(Value::known(FieldElement::zero()));
    let circuit = merkle_nohash2::MerkleCircuitNoHash2 {
        leaf: Value::known(leaf),
        path_elements,
        path_indices,
    };
    let mut cs = ConstraintSystem::new();
    let config = merkle_nohash2::MerkleCircuitNoHash2::configure(&mut cs)?;
    let mut asn = Assigner::new(&cs, 4)?;
    asn.begin_region();
    let leaf_cell = asn.assign_advice(config.left, 0, Value::known(leaf))?;
    let (d1_cell, d1_val) = circuit.merkle_prove_layer(
        &config,
        &mut asn,
        leaf_cell,
        Value::known(leaf),
        Value::known(sibling),
        Value::known(FieldElement::zero()),
    )?;
    let (d2_cell, _) = circuit.merkle_prove_layer(
        &config,
        &mut asn,
        d1_cell,
        d1_val,
        Value::known(h2),
        Value::known(FieldElement::zero()),
    )?;
    asn.constrain_instance(d2_cell, config.root_hash, 0)?;
    let table = asn.finish();
    let instances = single_instance(root);
    let ghost gcs = cs;
    let ghost gtable = table;
    let ghost ginst = instances;
    proof {
        let gv = Verifier { k: 4, cs: gcs, table: gtable, instances: ginst };
        assert(gv.table.rows == 16);
        assert forall|cc: int| 0 <= cc < gv.instances@.len() implies (
        #[trigger] gv.instances@[cc])@.len() <= gv.table.rows by {
            assert(cc == 0);
        }
        assert((gv.num_advice() + gv.num_instance()) * gv.rows() == 64) by (nonlinear_arith)
            requires
                gv.num_advice() == 3,
                gv.num_instance() == 1,
                gv.rows() == 16,
        ;
        assert(gv.num_cells() == 64);
        assert(gv.shape_fits());
        assert(gv.table.selectors@[0]@ == Seq::new(16, |x: int| false).update(1, true).update(
            3,
            true,
        ));
        assert(gv.table.selectors@[1]@ == Seq::new(16, |x: int| false).update(1, true).update(
            3,
            true,
        ));
        let one = choose|one: FieldElement|
            one.as_int() == 1 && gv.cs.gates@[0].polys@ =~= seq![
                #[trigger] merkle_nohash1::bool_gate_poly(2, one),
            ];
        assert forall|g: int, r: int, i: int|
            0 <= g < gv.cs.gates@.len() && 0 <= r < gv.table.rows && 0 <= i
                < gv.cs.gates@[g].polys@.len()
                && gv.table.selectors@[gv.cs.gates@[g].selector as int]@[r]
                implies #[trigger] crate::expression::expr_rotations_ok(
            gv.cs.gates@[g].polys@[i],
            r,
            gv.table.rows as int,
        ) by {
            if r != 1 && r != 3 {
                assert(gv.table.selectors@[gv.cs.gates@[g].selector as int]@[r] == false);
            }
            assert(r == 1 || r == 3);
            lemma_merkle_rotations(r, 16, one);
        }
        assert(Verifier::accepts(4, gcs, gtable, ginst));
    }
    let prover = Verifier::run(4, cs, table, instances)?;
    let accepted = prover.verify().is_ok();
    proof {
        let one = choose|one: FieldElement|
            one.as_int() == 1 && prover.cs.gates@[0].polys@ =~= seq![
                #[trigger] merkle_nohash1::bool_gate_poly(2, one),
            ];
        assert(prover.adv_at(0, 0) == Some(2int));
        assert(prover.adv_at(0, 1) == Some(2int));
        assert(prover.adv_at(1, 1) == Some(5int));
        assert(prover.adv_at(2, 1) == Some(0int));
        assert(prover.adv_at(0, 2) == Some(2int));
        assert(prover.adv_at(1, 2) == Some(5int));
        assert(prover.adv_at(2, 2) == Some(7int));
        assert(d1_val.as_opt() == Some(7int));
        assert(prover.adv_at(0, 3) == Some(7int));
        assert(prover.adv_at(1, 3) == Some(31int));
        assert(prover.adv_at(2, 3) == Some(0int));
        assert(prover.adv_at(0, 4) == Some(7int));
        assert(prover.adv_at(1, 4) == Some(31int));
        assert(prover.adv_at(2, 4) == Some(38int));
        assert forall|g: int, r: int, i: int|
            0 <= g < prover.cs.gates@.len() && 0 <= r < prover.rows() && 0 <= i
                < prover.cs.gates@[g].polys@.len() && prover.sel_at(
                prover.cs.gates@[g].selector as int,
                r,
            ) implies #[trigger] prover.eval(prover.cs.gates@[g].polys@[i], r) == Some(
            0int,
        ) by {
            if r != 1 && r != 3 {
                assert(prover.table.selectors@[prover.cs.gates@[g].selector as int]@[r]
                    == false);
            }
            assert(r == 1 || r == 3);
            if g == 0 {
                lemma_bool_poly_zero(prover, r, one);
            } else {
                assert(g == 1);
                if r == 1 {
                    if i == 0 {
                        lemma_swap_left_zero(prover, 1, 2int, 5int);
                    } else {
                        assert(i == 1);
                        lemma_swap_right_zero(prover, 1, 2int, 5int);
                    }
                } else {
                    if i == 0 {
                        lemma_swap_left_zero(prover, 3, 7int, 31int);
                    } else {
                        assert(i == 1);
                        lemma_swap_right_zero(prover, 3, 7int, 31int);
                    }
                }
            }
        }
        assert(prover.pair_ids() =~= seq![(0nat, 1nat), (34nat, 3nat), (36nat, 48nat)]);
        assert(prover.id_val(0) == Some(2int));
        assert(prover.id_val(1) == Some(2int));
        assert(prover.id_val(34) == Some(7int));
        assert(prover.id_val(3) == Some(7int));
        assert(prover.id_val(36) == Some(38int));
        assert(prover.instances@[0]@[0].as_int() == 38int);
        assert(prover.inst_at(0, 0) == 38int);
        assert(prover.id_val(48) == Some(38int));
        assert forall|x: nat, y: nat|
            #[trigger] related(prover.pair_ids(), x, y) implies prover.ids_agree(x, y) by {
            let f = |id: nat|
                if id == 0 || id == 1 {
                    0nat
                } else if id == 34 || id == 3 {
                    1nat
                } else if id == 36 || id == 48 {
                    2nat
                } else {
                    id + 100
                };
            crate::permutation::lemma_related_respects(prover.pair_ids(), f, x, y);
        }
        assert forall|i: int|
            0 <= i < prover.pair_ids().len() implies #[trigger] prover.pair_reaches_value(i) by {
            crate::permutation::lemma_related_refl(prover.pair_ids(), prover.pair_ids()[i].0);
            assert(related(prover.pair_ids(), prover.pair_ids()[i].0, prover.pair_ids()[i].0)
                && prover.id_val(prover.pair_ids()[i].0 as int) is Some);
        }
        assert(prover.ok());
        assert(accepted);
    }
    flags.push(accepted);

    let circuit = merkle_nohash2::MerkleCircuitNoHash2 {
        leaf: Value::known(root),
        path_elements: Vec::new(),
        path_indices: Vec::new(),
    };
    let mut cs = ConstraintSystem::new();
    let config = merkle_nohash2::MerkleCircuitNoHash2::configure(&mut cs)?;
    let mut asn = Assigner::new(&cs, 4)?;
    circuit.synthesize(&config, &mut asn)?;
    let table = asn.finish();
    let instances = single_instance(root);
    let ghost gcs2 = cs;
    let ghost gtable2 = table;
    let ghost ginst2 = instances;
    proof {
        let gv = Verifier { k: 4, cs: gcs2, table: gtable2, instances: ginst2 };
        assert(gv.table.rows == 16);
        assert forall|cc: int| 0 <= cc < gv.instances@.len() implies (
        #[trigger] gv.instances@[cc])@.len() <= gv.table.rows by {
            assert(cc == 0);
        }
        assert((gv.num_advice() + gv.num_instance()) * gv.rows() == 64) by (nonlinear_arith)
            requires
                gv.num_advice() == 3,
                gv.num_instance() == 1,
                gv.rows() == 16,
        ;
        assert(gv.num_cells() == 64);
        assert(gv.shape_fits());
        assert forall|g: int, r: int, i: int|
            0 <= g < gv.cs.gates@.len() && 0 <= r < gv.table.rows && 0 <= i
                < gv.cs.gates@[g].polys@.len()
                && gv.table.selectors@[gv.cs.gates@[g].selector as int]@[r]
                implies #[trigger] crate::expression::expr_rotations_ok(
            gv.cs.gates@[g].polys@[i],
            r,
            gv.table.rows as int,
        ) by {
            assert(!gv.table.selectors@[gv.cs.gates@[g].selector as int]@[r]);
        }
        assert(Verifier::accepts(4, gcs2, gtable2, ginst2));
    }
    let prover = Verifier::run(4, cs, table, instances)?;
    root.bounds();
    let accepted = prover.verify().is_ok();
    proof {
        prove_fake_acceptance(prover, root.as_int());
        assert(accepted);
    }
    flags.push(accepted);

    Ok(flags)
}


/// Drives the copy-class forgery demonstration on the gated variant: an
/// honest one-layer path is accepted, and so is a forged one — but only
/// because the forger rewrites *every* member of each copy class
/// consistently (the leaf cell, its recorded copy, the swapped cell and
/// the digest), which is exactly what the transitive class check demands.
/// Every flag is fixed by the contract.
#[verifier::rlimit(100)]
pub fn merke_nohash3() -> (r: Result<Vec<bool>, Error>)
    ensures
        r is Ok,
        r matches Ok(flags) ==> flags@ =~= seq![true, true],
{
    proof {
        vstd::arithmetic::power2::lemma2_to64();
    }
    let h1 = FieldElement::from_u64(7);
    let h2 = FieldElement::from_u64(31);
    let root = h1.add(h2);
    let mut flags: Vec<bool> = Vec::new();

    // Honest single layer: the known node 7 and its neighbor 31 combine
    // to the public root 38.
    let mut path_elements: Vec<Value> = Vec::new();
    path_elements.push(Value::known(h2));
    let mut path_indices: Vec<Value> = Vec::new();
    path_indices.push(Value::known(FieldElement::zero()));
    let circuit = merkle_nohash1::MerkleCircuitNoHash1 {
        leaf: Value::known(h1),
        path_elements,
        path_indices,
    };
    let mut cs = ConstraintSystem::new();
    let config = merkle_nohash1::MerkleCircuitNoHash1::configure(&mut cs)?;
    let mut asn = Assigner::new(&cs, 4)?;
    asn.begin_region();
    let leaf_cell = asn.assign_advice(config.left, 0, Value::known(h1))?;
    let (d1_cell, _) = circuit.merkle_prove_layer(
        &config,
        &mut asn,
        leaf_cell,
        Value::known(h1),
        Value::known(h2),
        Value::known(FieldElement::zero()),
    )?;
    asn.constrain_instance(d1_cell, config.root_hash, 0)?;
    let table = asn.finish();
    let instances = single_instance(root);
    let ghost gcs = cs;
    let ghost gtable = table;
    let ghost ginst = instances;
    proof {
        let gv = Verifier { k: 4, cs: gcs, table: gtable, instances: ginst };
        assert(gv.table.rows == 16);
        assert forall|cc: int| 0 <= cc < gv.instances@.len() implies (
        #[trigger] gv.instances@[cc])@.len() <= gv.table.rows by {
            assert(cc == 0);
        }
        assert((gv.num_advice() + gv.num_instance()) * gv.rows() == 64) by (nonlinear_arith)
            requires
                gv.num_advice() == 3,
                gv.num_instance() == 1,
                gv.rows() == 16,
        ;
        assert(gv.num_cells() == 64);
        assert(gv.shape_fits());
        assert(gv.table.selectors@[0]@ == Seq::new(16, |x: int| false).update(1, true));
        assert(gv.table.selectors@[1]@ == Seq::new(16, |x: int| false).update(1, true));
        assert(gv.table.selectors@[2]@ == Seq::new(16, |x: int| false).update(2, true));
        let one = choose|one: FieldElement|
            one.as_int() == 1 && gv.cs.gates@[0].polys@ =~= seq![
                #[trigger] merkle_nohash1::bool_gate_poly(2, one),
            ];
        assert forall|g: int, r: int, i: int|
            0 <= g < gv.cs.gates@.len() && 0 <= r < gv.table.rows && 0 <= i
                < gv.cs.gates@[g].polys@.len()
                && gv.table.selectors@[gv.cs.gates@[g].selector as int]@[r]
                implies #[trigger] crate::expression::expr_rotations_ok(
            gv.cs.gates@[g].polys@[i],
            r,
            gv.table.rows as int,
        ) by {
            if g == 2 {
                if r != 2 {
                    assert(gv.table.selectors@[2]@[r] == false);
                }
                assert(r == 2);
                lemma_merkle_rotations(r, 16, one);
            } else {
                if r != 1 {
                    assert(gv.table.selectors@[gv.cs.gates@[g].selector as int]@[r] == false);
                }
                assert(r == 1);
                lemma_merkle_rotations(r, 16, one);
            }
        }
        assert(Verifier::accepts(4, gcs, gtable, ginst));
    }
    let prover = Verifier::run(4, cs, table, instances)?;
    let accepted = prover.verify().is_ok();
    proof {
        let one = choose|one: FieldElement|
            one.as_int() == 1 && prover.cs.gates@[0].polys@ =~= seq![
                #[trigger] merkle_nohash1::bool_gate_poly(2, one),
            ];
        assert(prover.adv_at(0, 0) == Some(7int));
        assert(prover.adv_at(0, 1) == Some(7int));
        assert(prover.adv_at(1, 1) == Some(31int));
        assert(prover.adv_at(2, 1) == Some(0int));
        assert(prover.adv_at(0, 2) == Some(7int));
        assert(prover.adv_at(1, 2) == Some(31int));
        assert(prover.adv_at(2, 2) == Some(38int));
        assert forall|g: int, r: int, i: int|
            0 <= g < prover.cs.gates@.len() && 0 <= r < prover.rows() && 0 <= i
                < prover.cs.gates@[g].polys@.len() && prover.sel_at(
                prover.cs.gates@[g].selector as int,
                r,
            ) implies #[trigger] prover.eval(prover.cs.gates@[g].polys@[i], r) == Some(
            0int,
        ) by {
            if g == 0 {
                if r != 1 {
                    assert(prover.table.selectors@[1]@[r] == false);
                }
                assert(r == 1);
                lemma_bool_poly_zero(prover, 1, one);
            } else if g == 1 {
                if r != 1 {
                    assert(prover.table.selectors@[0]@[r] == false);
                }
                assert(r == 1);
                if i == 0 {
                    lemma_swap_left_zero(prover, 1, 7int, 31int);
                } else {
                    assert(i == 1);
                    lemma_swap_right_zero(prover, 1, 7int, 31int);
                }
            } else {
                assert(g == 2);
                if r != 2 {
                    assert(prover.table.selectors@[2]@[r] == false);
                }
                assert(r == 2);
                lemma_hash_poly_zero(prover, 2, 7int, 31int, 38int);
            }
        }
        assert(prover.pair_ids() =~= seq![(0nat, 1nat), (34nat, 48nat)]);
        assert(prover.id_val(0) == Some(7int));
        assert(prover.id_val(1) == Some(7int));
        assert(prover.id_val(34) == Some(38int));
        assert(prover.instances@[0]@[0].as_int() == 38int);
        assert(prover.inst_at(0, 0) == 38int);
        assert(prover.id_val(48) == Some(38int));
        assert forall|x: nat, y: nat|
            #[trigger] related(prover.pair_ids(), x, y) implies prover.ids_agree(x, y) by {
            let f = |id: nat|
                if id == 0 || id == 1 {
                    0nat
                } else if id == 34 || id == 48 {
                    1nat
                } else {
                    id + 100
                };
            crate::permutation::lemma_related_respects(prover.pair_ids(), f, x, y);
        }
        assert forall|i: int|
            0 <= i < prover.pair_ids().len() implies #[trigger] prover.pair_reaches_value(i) by {
            crate::permutation::lemma_related_refl(prover.pair_ids(), prover.pair_ids()[i].0);
            assert(related(prover.pair_ids(), prover.pair_ids()[i].0, prover.pair_ids()[i].0)
                && prover.id_val(prover.pair_ids()[i].0 as int) is Some);
        }
        assert(prover.ok());
        assert(accepted);
    }
    flags.push(accepted);

    // Forged: a different leaf, then every member of each copy class
    // overwritten consistently — leaf cell, its recorded copy, the
    // swapped cell, and the digest.  The checks are satisfied again.
    let random_leaf = FieldElement::from_u64(15);
    let mut path_elements: Vec<Value> = Vec::new();
    path_elements.push(Value::known(h2));
    let mut path_indices: Vec<Value> = Vec::new();
    path_indices.push(Value::known(FieldElement::zero()));
    let circuit = merkle_nohash1::MerkleCircuitNoHash1 {
        leaf: Value::known(random_leaf),
        path_elements,
        path_indices,
    };
    let mut cs = ConstraintSystem::new();
    let config = merkle_nohash1::MerkleCircuitNoHash1::configure(&mut cs)?;
    let mut asn = Assigner::new(&cs, 4)?;
    asn.begin_region();
    let leaf_cell = asn.assign_advice(config.left, 0, Value::known(random_leaf))?;
    let (d1_cell, _) = circuit.merkle_prove_layer(
        &config,
        &mut asn,
        leaf_cell,
        Value::known(random_leaf),
        Value::known(h2),
        Value::known(FieldElement::zero()),
    )?;
    asn.constrain_instance(d1_cell, config.root_hash, 0)?;
    let table = asn.finish();
    let instances = single_instance(root);
    let ghost gcs2 = cs;
    let ghost gtable2 = table;
    let ghost ginst2 = instances;
    proof {
        let gv = Verifier { k: 4, cs: gcs2, table: gtable2, instances: ginst2 };
        assert(gv.table.rows == 16);
        assert forall|cc: int| 0 <= cc < gv.instances@.len() implies (
        #[trigger] gv.instances@[cc])@.len() <= gv.table.rows by {
            assert(cc == 0);
        }
        assert((gv.num_advice() + gv.num_instance()) * gv.rows() == 64) by (nonlinear_arith)
            requires
                gv.num_advice() == 3,
                gv.num_instance() == 1,
                gv.rows() == 16,
        ;
        assert(gv.num_cells() == 64);
        assert(gv.shape_fits());
        assert(gv.table.selectors@[0]@ == Seq::new(16, |x: int| false).update(1, true));
        assert(gv.table.selectors@[1]@ == Seq::new(16, |x: int| false).update(1, true));
        assert(gv.table.selectors@[2]@ == Seq::new(16, |x: int| false).update(2, true));
        let one = choose|one: FieldElement|
            one.as_int() == 1 && gv.cs.gates@[0].polys@ =~= seq![
                #[trigger] merkle_nohash1::bool_gate_poly(2, one),
            ];
        assert forall|g: int, r: int, i: int|
            0 <= g < gv.cs.gates@.len() && 0 <= r < gv.table.rows && 0 <= i
                < gv.cs.gates@[g].polys@.len()
                && gv.table.selectors@[gv.cs.gates@[g].selector as int]@[r]
                implies #[trigger] crate::expression::expr_rotations_ok(
            gv.cs.gates@[g].polys@[i],
            r,
            gv.table.rows as int,
        ) by {
            if g == 2 {
                if r != 2 {
                    assert(gv.table.selectors@[2]@[r] == false);
                }
                assert(r == 2);
                lemma_merkle_rotations(r, 16, one);
            } else {
                if r != 1 {
                    assert(gv.table.selectors@[gv.cs.gates@[g].selector as int]@[r] == false);
                }
                assert(r == 1);
                lemma_merkle_rotations(r, 16, one);
            }
        }
        assert(Verifier::accepts(4, gcs2, gtable2, ginst2));
    }
    let mut prover = Verifier::run(4, cs, table, instances)?;
    prover.override_advice(0, 0, Value::known(h1))?;
    prover.override_advice(0, 1, Value::known(h1))?;
    prover.override_advice(0, 2, Value::known(h1))?;
    prover.override_advice(2, 2, Value::known(root))?;
    let accepted = prover.verify().is_ok();
    proof {
        let one = choose|one: FieldElement|
            one.as_int() == 1 && prover.cs.gates@[0].polys@ =~= seq![
                #[trigger] merkle_nohash1::bool_gate_poly(2, one),
            ];
        assert(prover.adv_at(0, 0) == Some(7int));
        assert(prover.adv_at(0, 1) == Some(7int));
        assert(prover.adv_at(1, 1) == Some(31int));
        assert(prover.adv_at(2, 1) == Some(0int));
        assert(prover.adv_at(0, 2) == Some(7int));
        assert(prover.adv_at(1, 2) == Some(31int));
        assert(prover.adv_at(2, 2) == Some(38int));
        assert forall|g: int, r: int, i: int|
            0 <= g < prover.cs.gates@.len() && 0 <= r < prover.rows() && 0 <= i
                < prover.cs.gates@[g].polys@.len() && prover.sel_at(
                prover.cs.gates@[g].selector as int,
                r,
            ) implies #[trigger] prover.eval(prover.cs.gates@[g].polys@[i], r) == Some(
            0int,
        ) by {
            if g == 0 {
                if r != 1 {
                    assert(prover.table.selectors@[1]@[r] == false);
                }
                assert(r == 1);
                lemma_bool_poly_zero(prover, 1, one);
            } else if g == 1 {
                if r != 1 {
                    assert(prover.table.selectors@[0]@[r] == false);
                }
                assert(r == 1);
                if i == 0 {
                    lemma_swap_left_zero(prover, 1, 7int, 31int);
                } else {
                    assert(i == 1);
                    lemma_swap_right_zero(prover, 1, 7int, 31int);
                }
            } else {
                assert(g == 2);
                if r != 2 {
                    assert(prover.table.selectors@[2]@[r] == false);
                }
                assert(r == 2);
                lemma_hash_poly_zero(prover, 2, 7int, 31int, 38int);
            }
        }
        assert(prover.pair_ids() =~= seq![(0nat, 1nat), (34nat, 48nat)]);
        assert(prover.id_val(0) == Some(7int));
        assert(prover.id_val(1) == Some(7int));
        assert(prover.id_val(34) == Some(38int));
        assert(prover.instances@[0]@[0].as_int() == 38int);
        assert(prover.inst_at(0, 0) == 38int);
        assert(prover.id_val(48) == Some(38int));
        assert forall|x: nat, y: nat|
            #[trigger] related(prover.pair_ids(), x, y) implies prover.ids_agree(x, y) by {
            let f = |id: nat|
                if id == 0 || id == 1 {
                    0nat
                } else if id == 34 || id == 48 {
                    1nat
                } else {
                    id + 100
                };
            crate::permutation::lemma_related_respects(prover.pair_ids(), f, x, y);
        }
        assert forall|i: int|
            0 <= i < prover.pair_ids().len() implies #[trigger] prover.pair_reaches_value(i) by {
            crate::permutation::lemma_related_refl(prover.pair_ids(), prover.pair_ids()[i].0);
            assert(related(prover.pair_ids(), prover.pair_ids()[i].0, prover.pair_ids()[i].0)
                && prover.id_val(prover.pair_ids()[i].0 as int) is Some);
        }
        assert(prover.ok());
        assert(accepted);
    }
    flags.push(accepted);

    Ok(flags)
}

} // verus!
