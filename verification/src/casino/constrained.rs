//! The constrained casino variant: a running sum without a zeroed first
//! row.  Deposits and their partial sums share each row from row 0; a
//! closing row repeats the final sum and is bound to the public input,
//! with a dedicated gate demanding that it equals the last partial sum.

use vstd::prelude::*;
use vstd::string::StringExecFns;

use crate::assign::Assigner;
use crate::assign::InstanceBinding;
use crate::casino::casino1::running_sum_poly;
use crate::casino::casino1::total_poly;
use crate::casino::deposits_sum;
use crate::error::Error;
use crate::expression::expr_wf;
use crate::expression::Expression;
use crate::layout::AdviceColumn;
use crate::layout::Cell;
use crate::layout::InstanceColumn;
use crate::layout::Selector;
use crate::system::ConstraintSystem;
use crate::value::Value;

verus! {

/// The deposits whose honest total is proved.
pub struct CasinoCircuitConstrained {
    pub deposits: Vec<Value>,
}

/// The constrained variant's shape: a deposit column, a sum column, the
/// public input, and the two gate selectors.
#[derive(Clone, Copy, Debug)]
pub struct CasinoConfig {
    pub deposits: AdviceColumn,
    pub sum: AdviceColumn,
    pub public: InstanceColumn,
    pub myselector: Selector,
    pub myselector2: Selector,
}

/// What [`CasinoCircuitConstrained::configure`] does to the constraint
/// system: two fresh equality-enabled advice columns, a fresh
/// equality-enabled instance column, two fresh selectors, the running-sum
/// gate and the total gate.
pub open spec fn configured(
    pre: ConstraintSystem,
    post: ConstraintSystem,
    config: CasinoConfig,
) -> bool {
    &&& (config.deposits.index as int) == pre.num_advice()
    &&& (config.sum.index as int) == pre.num_advice() + 1
    &&& (config.public.index as int) == pre.num_instance()
    &&& config.myselector.index == pre.num_selectors
    &&& (config.myselector2.index as int) == pre.num_selectors + 1
    &&& post.advice_eq@ == pre.advice_eq@.push(false).push(false).update(
        config.deposits.index as int,
        true,
    ).update(config.sum.index as int, true)
    &&& post.instance_eq@ == pre.instance_eq@.push(false).update(
        config.public.index as int,
        true,
    )
    &&& post.num_table_columns == pre.num_table_columns
    &&& (post.num_selectors as int) == pre.num_selectors + 2
    &&& post.gates@.len() == pre.gates@.len() + 2
    &&& forall|g: int| 0 <= g < pre.gates@.len() ==> #[trigger] post.gates@[g] == pre.gates@[g]
    &&& post.gates@[pre.gates@.len() as int].selector == config.myselector.index
    &&& post.gates@[pre.gates@.len() as int].polys@ =~= seq![
        running_sum_poly(config.deposits.index, config.sum.index),
    ]
    &&& post.gates@[pre.gates@.len() as int].name@ == "running sum"@
    &&& post.gates@[pre.gates@.len() as int + 1].selector == config.myselector2.index
    &&& post.gates@[pre.gates@.len() as int + 1].polys@ =~= seq![total_poly(config.sum.index)]
    &&& post.gates@[pre.gates@.len() as int + 1].name@ == "total"@
    &&& post.lookups@ == pre.lookups@
}

/// The variant's columns and selectors are pairwise distinct, as
/// [`CasinoCircuitConstrained::configure`] makes them.
pub open spec fn constrained_distinct(config: CasinoConfig) -> bool {
    &&& config.deposits.index != config.sum.index
    &&& config.myselector.index != config.myselector2.index
}

/// What [`CasinoCircuitConstrained::synthesize`] does to the assigner,
/// for a non-aliased config: deposit `i` and the partial sum through it
/// on fresh row `i`, the honest total on the closing row bound to public
/// input 0, the running-sum selector on every deposit row after the
/// first, and the total selector on the closing row.
pub open spec fn synthesized(
    pre: Assigner,
    post: Assigner,
    config: CasinoConfig,
    deposits: Seq<Value>,
    out: Cell,
) -> bool {
    let o = pre.offset + pre.used;
    let dep = config.deposits.index as int;
    let sm = config.sum.index as int;
    let s1 = config.myselector.index as int;
    let s2 = config.myselector2.index as int;
    let n = deposits.len() as int;
    &&& out.column == config.sum.index
    &&& out.row as int == o + n
    &&& post.offset == o
    &&& post.used as int == n + 1
    &&& post.table.rows == pre.table.rows
    &&& post.table.advice@.len() == pre.table.advice@.len()
    &&& forall|j: int|
        0 <= j < pre.table.advice@.len() && j != dep && j != sm
            ==> #[trigger] post.table.advice@[j] == pre.table.advice@[j]
    &&& (dep < pre.table.advice@.len() ==> post.table.advice@[dep]@.len()
        == pre.table.advice@[dep]@.len())
    &&& post.table.advice@[sm]@.len() == pre.table.advice@[sm]@.len()
    &&& (dep < pre.table.advice@.len() ==> forall|r: int|
        0 <= r < pre.table.advice@[dep]@.len() && !(o <= r < o + n)
            ==> #[trigger] post.table.advice@[dep]@[r] == pre.table.advice@[dep]@[r])
    &&& forall|r: int|
        0 <= r < pre.table.advice@[sm]@.len() && !(o <= r <= o + n)
            ==> #[trigger] post.table.advice@[sm]@[r] == pre.table.advice@[sm]@[r]
    &&& forall|i: int| 0 <= i < n ==> #[trigger] post.table.advice@[dep]@[o + i] == deposits[i]
    &&& forall|i: int|
        0 <= i < n ==> (#[trigger] post.table.advice@[sm]@[o + i]).as_opt() == deposits_sum(
            deposits,
            i + 1,
        )
    &&& post.table.advice@[sm]@[o + n].as_opt() == deposits_sum(deposits, n)
    &&& post.table.selectors@.len() == pre.table.selectors@.len()
    &&& forall|j: int|
        0 <= j < pre.table.selectors@.len() && j != s1 && j != s2
            ==> #[trigger] post.table.selectors@[j] == pre.table.selectors@[j]
    &&& (s1 < pre.table.selectors@.len() ==> post.table.selectors@[s1]@.len()
        == pre.table.selectors@[s1]@.len())
    &&& (s1 < pre.table.selectors@.len() ==> forall|r: int|
        0 <= r < pre.table.selectors@[s1]@.len() && !(o + 1 <= r < o + n)
            ==> #[trigger] post.table.selectors@[s1]@[r] == pre.table.selectors@[s1]@[r])
    &&& (s1 < pre.table.selectors@.len() ==> forall|r: int|
        o + 1 <= r < o + n && r < pre.table.selectors@[s1]@.len()
            ==> #[trigger] post.table.selectors@[s1]@[r])
    &&& post.table.selectors@[s2]@ == pre.table.selectors@[s2]@.update(o + n, true)
    &&& post.table.tables@ == pre.table.tables@
    &&& post.table.advice_eq@ == pre.table.advice_eq@
    &&& post.table.instance_eq@ == pre.table.instance_eq@
    &&& post.table.copies@ == pre.table.copies@
    &&& post.table.bindings@ == pre.table.bindings@.push(
        InstanceBinding { cell: out, column: config.public.index, row: 0 },
    )
}

impl CasinoCircuitConstrained {
    /// Registers the constrained shape.
    pub fn configure(cs: &mut ConstraintSystem) -> (r: Result<CasinoConfig, Error>)
        requires
            old(cs).wf(),
        ensures
            final(cs).wf(),
            (old(cs).num_selectors as int) + 2 < usize::MAX ==> r is Ok,
            r matches Ok(config) ==> configured(*old(cs), *final(cs), config)
                && constrained_distinct(config),
    {
        let deposits = cs.advice_column();
        let sum = cs.advice_column();
        let public = cs.instance_column();
        cs.enable_equality(deposits)?;
        cs.enable_equality(sum)?;
        cs.enable_instance_equality(public)?;
        if cs.num_selectors >= usize::MAX - 2 {
            return Err(Error::SizeTooLarge);
        }
        let myselector = cs.selector();
        let myselector2 = cs.selector();

        proof {
            let na = cs.num_advice();
            let ni = cs.num_instance();
            let ns = cs.num_selectors as int;
            let dep = deposits.index;
            let sm = sum.index;
            assert(expr_wf(Expression::Advice { column: dep, rotation: 0 }, na, ni, ns));
            assert(expr_wf(Expression::Advice { column: sm, rotation: 0 }, na, ni, ns));
            assert(expr_wf(Expression::Advice { column: sm, rotation: -1i32 }, na, ni, ns));
            assert(expr_wf(
                Expression::Sum(
                    Box::new(Expression::Advice { column: sm, rotation: -1i32 }),
                    Box::new(Expression::Advice { column: dep, rotation: 0 }),
                ),
                na,
                ni,
                ns,
            ));
            assert(expr_wf(
                Expression::Negate(Box::new(Expression::Advice { column: sm, rotation: 0 })),
                na,
                ni,
                ns,
            ));
            assert(expr_wf(running_sum_poly(dep, sm), na, ni, ns));
            assert(expr_wf(total_poly(sm), na, ni, ns));
        }

        let mut running: Vec<Expression> = Vec::new();
        running.push(
            Expression::advice(sum, -1).add(Expression::advice(deposits, 0)).sub(
                Expression::advice(sum, 0),
            ),
        );
        cs.create_gate(String::from_str("running sum"), myselector, running)?;

        let mut total: Vec<Expression> = Vec::new();
        total.push(Expression::advice(sum, -1).sub(Expression::advice(sum, 0)));
        cs.create_gate(String::from_str("total"), myselector2, total)?;

        Ok(CasinoConfig { deposits, sum, public, myselector, myselector2 })
    }

    /// Fills the constrained witness: deposits and partial sums from the
    /// first fresh row, the honest total on the closing row, bound to the
    /// public input.
    #[verifier::loop_isolation(false)]
    pub fn synthesize(&self, config: &CasinoConfig, asn: &mut Assigner) -> (r: Result<Cell, Error>)
        requires
            old(asn).wf(),
        ensures
            final(asn).wf(),
            ({
                let o = old(asn).offset + old(asn).used;
                ((config.deposits.index as int) < old(asn).table.num_advice() && (
                config.sum.index as int) < old(asn).table.num_advice() && old(
                    asn,
                ).table.advice_eq@[config.sum.index as int] && (config.public.index as int) < old(
                    asn,
                ).table.num_instance() && old(asn).table.instance_eq@[config.public.index as int]
                    && config.myselector.index < old(asn).table.selectors@.len()
                    && config.myselector2.index < old(asn).table.selectors@.len() && o
                    + self.deposits@.len() + 1 <= old(asn).table.rows) ==> r is Ok
            }),
            constrained_distinct(*config) ==> (r matches Ok(out) ==> synthesized(
                *old(asn),
                *final(asn),
                *config,
                self.deposits@,
                out,
            )),
    {
        let ghost o = old(asn).offset + old(asn).used;
        let ghost dep = config.deposits.index as int;
        let ghost sm = config.sum.index as int;
        let ghost s1 = config.myselector.index as int;
        let ghost s2 = config.myselector2.index as int;
        asn.begin_region();
        let mut sum = Value::known(crate::field::FieldElement::zero());
        let mut i: usize = 0;
        while i < self.deposits.len()
            invariant
                asn.wf(),
                i <= self.deposits@.len(),
                asn.offset == o,
                asn.used == i,
                asn.table.rows == old(asn).table.rows,
                asn.table.advice@.len() == old(asn).table.advice@.len(),
                asn.table.selectors@.len() == old(asn).table.selectors@.len(),
                sum.as_opt() == deposits_sum(self.deposits@, i as int),
                asn.table.tables@ == old(asn).table.tables@,
                asn.table.advice_eq@ == old(asn).table.advice_eq@,
                asn.table.instance_eq@ == old(asn).table.instance_eq@,
                asn.table.copies@ == old(asn).table.copies@,
                asn.table.bindings@ == old(asn).table.bindings@,
                i > 0 ==> dep < old(asn).table.advice@.len(),
                i > 0 ==> sm < old(asn).table.advice@.len(),
                constrained_distinct(*config) ==> forall|j: int|
                    0 <= j < old(asn).table.advice@.len() && j != dep && j != sm
                        ==> #[trigger] asn.table.advice@[j] == old(asn).table.advice@[j],
                (constrained_distinct(*config) && dep < old(asn).table.advice@.len())
                    ==> asn.table.advice@[dep]@.len() == old(asn).table.advice@[dep]@.len(),
                (constrained_distinct(*config) && sm < old(asn).table.advice@.len())
                    ==> asn.table.advice@[sm]@.len() == old(asn).table.advice@[sm]@.len(),
                constrained_distinct(*config) ==> forall|r: int|
                    0 <= r < old(asn).table.advice@[dep]@.len() && !(o <= r < o + i)
                        ==> #[trigger] asn.table.advice@[dep]@[r] == old(
                        asn,
                    ).table.advice@[dep]@[r],
                constrained_distinct(*config) ==> forall|r: int|
                    0 <= r < old(asn).table.advice@[sm]@.len() && !(o <= r < o + i)
                        ==> #[trigger] asn.table.advice@[sm]@[r] == old(asn).table.advice@[sm]@[r],
                constrained_distinct(*config) ==> forall|k: int|
                    0 <= k < i ==> #[trigger] asn.table.advice@[dep]@[o + k] == self.deposits@[k],
                constrained_distinct(*config) ==> forall|k: int|
                    0 <= k < i ==> (#[trigger] asn.table.advice@[sm]@[o + k]).as_opt()
                        == deposits_sum(self.deposits@, k + 1),
                constrained_distinct(*config) ==> forall|j: int|
                    0 <= j < old(asn).table.selectors@.len() && j != s1 && j != s2
                        ==> #[trigger] asn.table.selectors@[j] == old(asn).table.selectors@[j],
                (constrained_distinct(*config) && s1 < old(asn).table.selectors@.len())
                    ==> asn.table.selectors@[s1]@.len() == old(asn).table.selectors@[s1]@.len(),
                constrained_distinct(*config) ==> forall|r: int|
                    0 <= r < old(asn).table.selectors@[s1]@.len() && !(o + 1 <= r < o + i)
                        ==> #[trigger] asn.table.selectors@[s1]@[r] == old(
                        asn,
                    ).table.selectors@[s1]@[r],
                constrained_distinct(*config) ==> forall|r: int|
                    o + 1 <= r < o + i && r < old(asn).table.selectors@[s1]@.len()
                        ==> #[trigger] asn.table.selectors@[s1]@[r],
                (constrained_distinct(*config) && s2 < old(asn).table.selectors@.len())
                    ==> asn.table.selectors@[s2]@ == old(asn).table.selectors@[s2]@,
            decreases self.deposits@.len() - i,
        {
            if i > 0 {
                asn.enable_selector(config.myselector, i)?;
            }
            asn.assign_advice(config.deposits, i, self.deposits[i])?;
            sum = sum.add(self.deposits[i]);
            asn.assign_advice(config.sum, i, sum)?;
            i = i + 1;
        }
        asn.enable_selector(config.myselector2, i)?;
        let out = asn.assign_advice(config.sum, i, sum)?;
        asn.constrain_instance(out, config.public, 0)?;
        Ok(out)
    }
}

} // verus!
