//! An underconstrained sum circuit: a gate checks `a + b = out` and a
//! lookup range-checks the first column's rows, but nothing relates the
//! checked rows to the rest of the witness — a standing example of how a
//! circuit can look guarded and still leave room.

use vstd::prelude::*;
use vstd::string::StringExecFns;

use crate::assign::Assigner;
use crate::assign::InstanceBinding;
use crate::casino::casino2::table_val;
use crate::error::Error;
use crate::expression::expr_wf;
use crate::expression::Expression;
use crate::field::FieldElement;
use crate::field::MODULUS;
use crate::layout::AdviceColumn;
use crate::layout::Cell;
use crate::layout::InstanceColumn;
use crate::layout::Selector;
use crate::layout::TableColumn;
use crate::system::ConstraintSystem;
use crate::value::opt_add;
use crate::value::Value;

verus! {

/// The two summands.
pub struct UnderconstrainedCircuit {
    pub a: Value,
    pub b: Value,
}

/// One advice column, the public input, the range table and a gate
/// selector.
#[derive(Clone, Copy, Debug)]
pub struct UnderconstrainedConfig {
    pub advice: AdviceColumn,
    pub instance: InstanceColumn,
    pub lookup_table: TableColumn,
    pub myselector: Selector,
}

/// The sum gate's polynomial over advice column `c`:
/// `c[r] + c[r+1] - c[r+2]`.
pub open spec fn sum_gate_poly(c: usize) -> Expression {
    Expression::Sum(
        Box::new(
            Expression::Sum(
                Box::new(Expression::Advice { column: c, rotation: 0 }),
                Box::new(Expression::Advice { column: c, rotation: 1 }),
            ),
        ),
        Box::new(Expression::Negate(Box::new(Expression::Advice { column: c, rotation: 2 }))),
    )
}

/// What [`UnderconstrainedCircuit::configure`] does to the constraint
/// system: a fresh equality-enabled advice column, a fresh
/// equality-enabled instance column, a table column, a selector, the sum
/// gate and the range lookup.
pub open spec fn configured(
    pre: ConstraintSystem,
    post: ConstraintSystem,
    config: UnderconstrainedConfig,
) -> bool {
    &&& (config.advice.index as int) == pre.num_advice()
    &&& (config.instance.index as int) == pre.num_instance()
    &&& config.myselector.index == pre.num_selectors
    &&& config.lookup_table.index == pre.num_table_columns
    &&& post.advice_eq@ == pre.advice_eq@.push(false).update(config.advice.index as int, true)
    &&& post.instance_eq@ == pre.instance_eq@.push(false).update(
        config.instance.index as int,
        true,
    )
    &&& post.num_table_columns == pre.num_table_columns + 1
    &&& (post.num_selectors as int) == pre.num_selectors + 1
    &&& post.gates@.len() == pre.gates@.len() + 1
    &&& forall|g: int| 0 <= g < pre.gates@.len() ==> #[trigger] post.gates@[g] == pre.gates@[g]
    &&& post.gates@.last().selector == config.myselector.index
    &&& post.gates@.last().polys@ =~= seq![sum_gate_poly(config.advice.index)]
    &&& post.gates@.last().name@ == "random_gate"@
    &&& post.lookups@.len() == pre.lookups@.len() + 1
    &&& forall|l: int| 0 <= l < pre.lookups@.len() ==> #[trigger] post.lookups@[l] == pre.lookups@[l]
    &&& post.lookups@.last().input == (Expression::Advice {
        column: config.advice.index,
        rotation: 0,
    })
    &&& post.lookups@.last().table == config.lookup_table.index
    &&& post.lookups@.last().name@ == "range_check_constraint"@
}

/// What [`UnderconstrainedCircuit::synthesize`] does to a fresh assigner:
/// the range table holds `0 .. 9`, `a`, `b` and `a + b` sit on the first
/// three rows with the sum gate active on row 0, the sum is bound to public
/// input 0, and every remaining advice row is padded with zero.
pub open spec fn synthesized(
    pre: Assigner,
    post: Assigner,
    config: UnderconstrainedConfig,
    a: Value,
    b: Value,
    out: Cell,
) -> bool {
    let c = config.advice.index as int;
    let s = config.myselector.index as int;
    let lt = config.lookup_table.index as int;
    let rows = pre.table.rows as int;
    &&& out.column == config.advice.index
    &&& out.row == 2
    &&& post.table.rows == pre.table.rows
    &&& post.table.advice@.len() == pre.table.advice@.len()
    &&& forall|j: int|
        0 <= j < pre.table.advice@.len() && j != c ==> #[trigger] post.table.advice@[j]
            == pre.table.advice@[j]
    &&& post.table.advice@[c]@.len() == pre.table.advice@[c]@.len()
    &&& post.table.advice@[c]@[0] == a
    &&& post.table.advice@[c]@[1] == b
    &&& post.table.advice@[c]@[2].as_opt() == opt_add(a.as_opt(), b.as_opt())
    &&& forall|r: int|
        3 <= r < rows ==> (#[trigger] post.table.advice@[c]@[r]).as_opt() == Some(0int)
    &&& post.table.selectors@.len() == pre.table.selectors@.len()
    &&& forall|j: int|
        0 <= j < pre.table.selectors@.len() && j != s ==> #[trigger] post.table.selectors@[j]
            == pre.table.selectors@[j]
    &&& post.table.selectors@[s]@ == pre.table.selectors@[s]@.update(0, true)
    &&& post.table.tables@.len() == pre.table.tables@.len()
    &&& forall|j: int|
        0 <= j < pre.table.tables@.len() && j != lt ==> #[trigger] post.table.tables@[j]
            == pre.table.tables@[j]
    &&& post.table.tables@[lt]@.len() == pre.table.tables@[lt]@.len()
    &&& forall|r: int| 0 <= r < 9 ==> #[trigger] table_val(post.table, lt, r) == Some(r)
    &&& forall|r: int|
        9 <= r < pre.table.tables@[lt]@.len() ==> #[trigger] post.table.tables@[lt]@[r]
            == pre.table.tables@[lt]@[r]
    &&& post.table.advice_eq@ == pre.table.advice_eq@
    &&& post.table.instance_eq@ == pre.table.instance_eq@
    &&& post.table.copies@ == pre.table.copies@
    &&& post.table.bindings@ == pre.table.bindings@.push(
        InstanceBinding { cell: out, column: config.instance.index, row: 0 },
    )
}

impl UnderconstrainedCircuit {
    /// Registers the columns, a gate
    /// `advice[r] + advice[r+1] - advice[r+2] = 0`, and a lookup binding
    /// every advice row to the range table.
    pub fn configure(cs: &mut ConstraintSystem) -> (r: Result<UnderconstrainedConfig, Error>)
        requires
            old(cs).wf(),
        ensures
            final(cs).wf(),
            (old(cs).num_selectors < usize::MAX && old(cs).num_table_columns < usize::MAX)
                ==> r is Ok,
            r matches Ok(config) ==> configured(*old(cs), *final(cs), config),
    {
        let advice = cs.advice_column();
        let instance = cs.instance_column();
        cs.enable_equality(advice)?;
        cs.enable_instance_equality(instance)?;
        if cs.num_selectors == usize::MAX || cs.num_table_columns == usize::MAX {
            return Err(Error::SizeTooLarge);
        }
        let lookup_table = cs.lookup_table_column();
        let myselector = cs.selector();
        let mut polys: Vec<Expression> = Vec::new();
        polys.push(
            Expression::advice(advice, 0).add(Expression::advice(advice, 1)).sub(
                Expression::advice(advice, 2),
            ),
        );
        proof {
            let na = cs.num_advice();
            let ni = cs.num_instance();
            let ns = cs.num_selectors as int;
            let c = advice.index;
            assert(expr_wf(Expression::Advice { column: c, rotation: 0 }, na, ni, ns));
            assert(expr_wf(Expression::Advice { column: c, rotation: 1 }, na, ni, ns));
            assert(expr_wf(Expression::Advice { column: c, rotation: 2 }, na, ni, ns));
            assert(expr_wf(
                Expression::Sum(
                    Box::new(Expression::Advice { column: c, rotation: 0 }),
                    Box::new(Expression::Advice { column: c, rotation: 1 }),
                ),
                na,
                ni,
                ns,
            ));
            assert(expr_wf(
                Expression::Negate(Box::new(Expression::Advice { column: c, rotation: 2 })),
                na,
                ni,
                ns,
            ));
            assert(expr_wf(sum_gate_poly(c), na, ni, ns));
        }
        cs.create_gate(String::from_str("random_gate"), myselector, polys)?;
        cs.lookup(
            String::from_str("range_check_constraint"),
            Expression::advice(advice, 0),
            lookup_table,
        )?;
        Ok(UnderconstrainedConfig { advice, instance, lookup_table, myselector })
    }

    /// Populates the range table with `0 .. 9`, writes `a`, `b` and
    /// `a + b`, pads the unused rows with zero, and binds the sum to the
    /// public input.
    #[verifier::loop_isolation(false)]
    pub fn synthesize(&self, config: &UnderconstrainedConfig, asn: &mut Assigner) -> (r: Result<
        Cell,
        Error,
    >)
        requires
            old(asn).wf(),
        ensures
            final(asn).wf(),
            ((config.advice.index as int) < old(asn).table.num_advice() && old(
                asn,
            ).table.advice_eq@[config.advice.index as int] && (config.instance.index as int) < old(
                asn,
            ).table.num_instance() && old(asn).table.instance_eq@[config.instance.index as int]
                && config.myselector.index < old(asn).table.selectors@.len()
                && config.lookup_table.index < old(asn).table.tables@.len() && old(asn).offset == 0
                && old(asn).used == 0 && 9 <= old(asn).table.rows && (forall|r: int|
                0 <= r < 9 ==> (#[trigger] old(
                    asn,
                ).table.tables@[config.lookup_table.index as int]@[r]) is None)) ==> r is Ok,
            (old(asn).offset == 0 && old(asn).used == 0) ==> (r matches Ok(out) ==> synthesized(
                *old(asn),
                *final(asn),
                *config,
                self.a,
                self.b,
                out,
            )),
    {
        let ghost lt = config.lookup_table.index as int;
        let mut row: usize = 0;
        while row < 9
            invariant
                asn.wf(),
                row <= 9,
                row <= old(asn).table.rows,
                row > 0 ==> lt < old(asn).table.tables@.len(),
                asn.offset == old(asn).offset,
                asn.used == old(asn).used,
                asn.table.rows == old(asn).table.rows,
                asn.table.advice@ == old(asn).table.advice@,
                asn.table.selectors@ == old(asn).table.selectors@,
                asn.table.advice_eq@ == old(asn).table.advice_eq@,
                asn.table.instance_eq@ == old(asn).table.instance_eq@,
                asn.table.copies@ == old(asn).table.copies@,
                asn.table.bindings@ == old(asn).table.bindings@,
                asn.table.tables@.len() == old(asn).table.tables@.len(),
                forall|j: int|
                    0 <= j < old(asn).table.tables@.len() && j != lt
                        ==> #[trigger] asn.table.tables@[j] == old(asn).table.tables@[j],
                lt < old(asn).table.tables@.len() ==> asn.table.tables@[lt]@.len() == old(
                    asn,
                ).table.tables@[lt]@.len(),
                forall|r: int| 0 <= r < row ==> #[trigger] table_val(asn.table, lt, r) == Some(r),
                forall|r: int|
                    row <= r < old(asn).table.tables@[lt]@.len()
                        ==> #[trigger] asn.table.tables@[lt]@[r] == old(asn).table.tables@[lt]@[r],
            decreases 9 - row,
        {
            proof {
                vstd::arithmetic::div_mod::lemma_small_mod(row as nat, MODULUS as nat);
            }
            let ghost head = *asn;
            match asn.assign_table_cell(
                config.lookup_table,
                row,
                FieldElement::from_u64(row as u64),
            ) {
                Ok(()) => {},
                Err(e) => {
                    proof {
                        if (config.lookup_table.index as int) < old(asn).table.tables@.len() && 9
                            <= old(asn).table.rows && (forall|r: int|
                            0 <= r < 9 ==> (#[trigger] old(
                                asn,
                            ).table.tables@[config.lookup_table.index as int]@[r]) is None) {
                            assert(asn.table.tables@[lt]@[row as int] == old(
                                asn,
                            ).table.tables@[lt]@[row as int]);
                            assert(false);
                        }
                    }
                    return Err(e);
                },
            }
            proof {
                assert((row as u64) as int % (MODULUS as int) == row as int);
                assert(asn.table.tables@[lt]@ == head.table.tables@[lt]@.update(
                    row as int,
                    asn.table.tables@[lt]@[row as int],
                ));
                assert forall|r: int| 0 <= r < row + 1 implies #[trigger] table_val(
                    asn.table,
                    lt,
                    r,
                ) == Some(r) by {
                    if r < row {
                        assert(head.table.tables@[lt]@.len() == head.table.rows);
                        assert(asn.table.tables@[lt]@[r] == head.table.tables@[lt]@[r]);
                        assert(table_val(head.table, lt, r) == Some(r));
                    }
                }
            }
            row = row + 1;
        }

        let ghost filled = *asn;
        asn.begin_region();
        asn.enable_selector(config.myselector, 0)?;
        asn.assign_advice(config.advice, 0, self.a)?;
        asn.assign_advice(config.advice, 1, self.b)?;
        let out = asn.assign_advice(config.advice, 2, self.a.add(self.b))?;
        asn.constrain_instance(out, config.instance, 0)?;

        let ghost mid = *asn;
        let ghost c = config.advice.index as int;
        let mut rel: usize = 3;
        let rows = asn.table.rows;
        while rel < rows
            invariant
                asn.wf(),
                c == config.advice.index as int,
                3 <= rel,
                c < asn.table.advice@.len(),
                asn.offset == mid.offset,
                asn.table.rows == mid.table.rows,
                rows == asn.table.rows,
                asn.table.advice@.len() == mid.table.advice@.len(),
                forall|j: int|
                    0 <= j < mid.table.advice@.len() && j != c ==> #[trigger] asn.table.advice@[j]
                        == mid.table.advice@[j],
                asn.table.advice@[c]@.len() == mid.table.advice@[c]@.len(),
                forall|r: int|
                    0 <= r < mid.table.advice@[c]@.len() && !(mid.offset + 3 <= r < mid.offset
                        + rel) ==> #[trigger] asn.table.advice@[c]@[r] == mid.table.advice@[c]@[r],
                forall|r: int|
                    mid.offset + 3 <= r < mid.offset + rel && r < mid.table.advice@[c]@.len() ==> (
                    #[trigger] asn.table.advice@[c]@[r]).as_opt() == Some(0int),
                asn.table.selectors@ == mid.table.selectors@,
                asn.table.tables@ == mid.table.tables@,
                asn.table.advice_eq@ == mid.table.advice_eq@,
                asn.table.instance_eq@ == mid.table.instance_eq@,
                asn.table.copies@ == mid.table.copies@,
                asn.table.bindings@ == mid.table.bindings@,
            decreases rows - rel,
        {
            asn.assign_advice(config.advice, rel, Value::known(FieldElement::zero()))?;
            rel = rel + 1;
        }
        proof {
            if old(asn).offset == 0 && old(asn).used == 0 {
                let ltg = config.lookup_table.index as int;
                assert(mid.offset == 0);
                assert(rel >= rows);
                assert(asn.table.advice@[c]@[0] == self.a) by {
                    assert(mid.table.advice@[c]@[0] == self.a);
                }
                assert(asn.table.advice@[c]@[1] == self.b) by {
                    assert(mid.table.advice@[c]@[1] == self.b);
                }
                assert(asn.table.advice@[c]@[2].as_opt() == opt_add(
                    self.a.as_opt(),
                    self.b.as_opt(),
                )) by {
                    assert(mid.table.advice@[c]@[2].as_opt() == opt_add(
                        self.a.as_opt(),
                        self.b.as_opt(),
                    ));
                }
                assert forall|r: int|
                    3 <= r < old(asn).table.rows implies (
                #[trigger] asn.table.advice@[c]@[r]).as_opt() == Some(0int) by {
                    assert(mid.offset + 3 <= r < mid.offset + rel);
                    assert(mid.table.advice@[c]@.len() == mid.table.rows);
                }
                assert forall|r: int| 0 <= r < 9 implies #[trigger] table_val(asn.table, ltg, r)
                    == Some(r) by {
                    assert(asn.table.tables@ == filled.table.tables@);
                    assert(table_val(filled.table, ltg, r) == Some(r));
                }
            }
        }
        Ok(out)
    }
}

} // verus!
