//! Casino, stage two: a running-sum gate.
//!
//! Row 0 must hold zeros, each later deposit row must extend the running
//! sum, and the claimed total must both close the sum chain and match the
//! public input.  Deposits themselves are still unbounded, so a
//! field-wraparound deposit can close the chain on any total.
//!
//! Design notes: the running-sum selector is enabled on every deposit
//! row, so no deposit escapes the chain, and the claimed total sits on a
//! closing row of its own, checked by a dedicated gate — a shortfall
//! therefore surfaces as `ConstraintNotSatisfied` at that gate, while the
//! copy to the public input stays satisfied.

use vstd::prelude::*;
use vstd::string::StringExecFns;

use crate::assign::Assigner;
use crate::assign::InstanceBinding;
use crate::casino::deposits_sum;
use crate::error::Error;
use crate::expression::expr_wf;
use crate::expression::Expression;
use crate::field::FieldElement;
use crate::layout::AdviceColumn;
use crate::layout::Cell;
use crate::layout::InstanceColumn;
use crate::layout::Selector;
use crate::system::ConstraintSystem;
use crate::value::Value;

verus! {

/// The deposits and the total the owner claims they reach.
pub struct CasinoCircuit {
    pub deposits: Vec<Value>,
    pub total: Value,
}

/// The stage-two shape: a deposit column, a running-sum column, the
/// public input, and the three gate selectors.
#[derive(Clone, Copy, Debug)]
pub struct CasinoConfig {
    pub deposits: AdviceColumn,
    pub sum: AdviceColumn,
    pub public: InstanceColumn,
    pub selector_first_row: Selector,
    pub selector_running_sum: Selector,
    pub selector_total: Selector,
}

/// The "first row" polynomials: deposit and sum must both be zero.
pub open spec fn first_row_polys(dep: usize, sm: usize) -> Seq<Expression> {
    seq![
        Expression::Advice { column: dep, rotation: 0 },
        Expression::Advice { column: sm, rotation: 0 },
    ]
}

/// The "running sum" polynomial: `sum[r-1] + deposit[r] - sum[r]`.
pub open spec fn running_sum_poly(dep: usize, sm: usize) -> Expression {
    Expression::Sum(
        Box::new(
            Expression::Sum(
                Box::new(Expression::Advice { column: sm, rotation: -1i32 }),
                Box::new(Expression::Advice { column: dep, rotation: 0 }),
            ),
        ),
        Box::new(Expression::Negate(Box::new(Expression::Advice { column: sm, rotation: 0 }))),
    )
}

/// The "total" polynomial: `sum[r-1] - sum[r]`.
pub open spec fn total_poly(sm: usize) -> Expression {
    Expression::Sum(
        Box::new(Expression::Advice { column: sm, rotation: -1i32 }),
        Box::new(Expression::Negate(Box::new(Expression::Advice { column: sm, rotation: 0 }))),
    )
}

/// What [`configure_running_sum`] does to the constraint system: two
/// fresh equality-enabled advice columns, a fresh equality-enabled
/// instance column, three fresh selectors, and the three gates.
pub open spec fn running_sum_configured(
    pre: ConstraintSystem,
    post: ConstraintSystem,
    config: CasinoConfig,
) -> bool {
    &&& (config.deposits.index as int) == pre.num_advice()
    &&& (config.sum.index as int) == pre.num_advice() + 1
    &&& (config.public.index as int) == pre.num_instance()
    &&& config.selector_first_row.index == pre.num_selectors
    &&& (config.selector_running_sum.index as int) == pre.num_selectors + 1
    &&& (config.selector_total.index as int) == pre.num_selectors + 2
    &&& post.advice_eq@ == pre.advice_eq@.push(false).push(false).update(
        config.deposits.index as int,
        true,
    ).update(config.sum.index as int, true)
    &&& post.instance_eq@ == pre.instance_eq@.push(false).update(
        config.public.index as int,
        true,
    )
    &&& post.num_table_columns == pre.num_table_columns
    &&& (post.num_selectors as int) == pre.num_selectors + 3
    &&& post.gates@.len() == pre.gates@.len() + 3
    &&& forall|g: int| 0 <= g < pre.gates@.len() ==> #[trigger] post.gates@[g] == pre.gates@[g]
    &&& post.gates@[pre.gates@.len() as int].selector == config.selector_first_row.index
    &&& post.gates@[pre.gates@.len() as int].polys@ =~= first_row_polys(
        config.deposits.index,
        config.sum.index,
    )
    &&& post.gates@[pre.gates@.len() as int].name@ == "first row"@
    &&& post.gates@[pre.gates@.len() as int + 1].selector == config.selector_running_sum.index
    &&& post.gates@[pre.gates@.len() as int + 1].polys@ =~= seq![
        running_sum_poly(config.deposits.index, config.sum.index),
    ]
    &&& post.gates@[pre.gates@.len() as int + 1].name@ == "running sum"@
    &&& post.gates@[pre.gates@.len() as int + 2].selector == config.selector_total.index
    &&& post.gates@[pre.gates@.len() as int + 2].polys@ =~= seq![total_poly(config.sum.index)]
    &&& post.gates@[pre.gates@.len() as int + 2].name@ == "total"@
    &&& post.lookups@ == pre.lookups@
}

/// The stage-two columns and selectors are pairwise distinct, as
/// [`configure_running_sum`] makes them.
pub open spec fn config_distinct(config: CasinoConfig) -> bool {
    &&& config.deposits.index != config.sum.index
    &&& config.selector_first_row.index != config.selector_running_sum.index
    &&& config.selector_first_row.index != config.selector_total.index
    &&& config.selector_running_sum.index != config.selector_total.index
}

/// What [`synthesize_running_sum`] does to the assigner, for a
/// non-aliased config: zeros on the first fresh row, deposits and their
/// running sums on the next `n` rows, the claimed total on the closing
/// row bound to public input 0, and the three selectors on their rows.
pub open spec fn running_sum_synthesized(
    pre: Assigner,
    post: Assigner,
    config: CasinoConfig,
    deposits: Seq<Value>,
    claimed: Value,
    out: Cell,
) -> bool {
    let o = pre.offset + pre.used;
    let dep = config.deposits.index as int;
    let sm = config.sum.index as int;
    let sf = config.selector_first_row.index as int;
    let sr = config.selector_running_sum.index as int;
    let st = config.selector_total.index as int;
    let n = deposits.len() as int;
    &&& out.column == config.sum.index
    &&& out.row as int == o + n + 1
    &&& post.offset == o
    &&& post.used as int == n + 2
    &&& post.table.rows == pre.table.rows
    &&& post.table.advice@.len() == pre.table.advice@.len()
    &&& forall|j: int|
        0 <= j < pre.table.advice@.len() && j != dep && j != sm
            ==> #[trigger] post.table.advice@[j] == pre.table.advice@[j]
    &&& post.table.advice@[dep]@.len() == pre.table.advice@[dep]@.len()
    &&& post.table.advice@[sm]@.len() == pre.table.advice@[sm]@.len()
    &&& forall|r: int|
        0 <= r < pre.table.advice@[dep]@.len() && !(o <= r <= o + n)
            ==> #[trigger] post.table.advice@[dep]@[r] == pre.table.advice@[dep]@[r]
    &&& forall|r: int|
        0 <= r < pre.table.advice@[sm]@.len() && !(o <= r <= o + n + 1)
            ==> #[trigger] post.table.advice@[sm]@[r] == pre.table.advice@[sm]@[r]
    &&& post.table.advice@[dep]@[o].as_opt() == Some(0int)
    &&& post.table.advice@[sm]@[o].as_opt() == Some(0int)
    &&& forall|i: int|
        0 <= i < n ==> #[trigger] post.table.advice@[dep]@[o + 1 + i] == deposits[i]
    &&& forall|i: int|
        0 <= i < n ==> (#[trigger] post.table.advice@[sm]@[o + 1 + i]).as_opt() == deposits_sum(
            deposits,
            i + 1,
        )
    &&& post.table.advice@[sm]@[o + n + 1] == claimed
    &&& post.table.selectors@.len() == pre.table.selectors@.len()
    &&& forall|j: int|
        0 <= j < pre.table.selectors@.len() && j != sf && j != sr && j != st
            ==> #[trigger] post.table.selectors@[j] == pre.table.selectors@[j]
    &&& post.table.selectors@[sf]@ == pre.table.selectors@[sf]@.update(o, true)
    &&& (sr < pre.table.selectors@.len() ==> post.table.selectors@[sr]@.len()
        == pre.table.selectors@[sr]@.len())
    &&& (sr < pre.table.selectors@.len() ==> forall|r: int|
        0 <= r < pre.table.selectors@[sr]@.len() && !(o + 1 <= r <= o + n)
            ==> #[trigger] post.table.selectors@[sr]@[r] == pre.table.selectors@[sr]@[r])
    &&& (sr < pre.table.selectors@.len() ==> forall|r: int|
        o + 1 <= r <= o + n && r < pre.table.selectors@[sr]@.len()
            ==> #[trigger] post.table.selectors@[sr]@[r])
    &&& post.table.selectors@[st]@ == pre.table.selectors@[st]@.update(o + n + 1, true)
    &&& post.table.tables@ == pre.table.tables@
    &&& post.table.advice_eq@ == pre.table.advice_eq@
    &&& post.table.instance_eq@ == pre.table.instance_eq@
    &&& post.table.copies@ == pre.table.copies@
    &&& post.table.bindings@ == pre.table.bindings@.push(
        InstanceBinding { cell: out, column: config.public.index, row: 0 },
    )
}

/// Registers the running-sum shape: "first row" demands zeros where its
/// selector is on, "running sum" demands `sum[r-1] + deposit[r] = sum[r]`,
/// and "total" demands that the claimed total equals the last sum.
pub fn configure_running_sum(cs: &mut ConstraintSystem) -> (r: Result<CasinoConfig, Error>)
    requires
        old(cs).wf(),
    ensures
        final(cs).wf(),
        (old(cs).num_selectors as int) + 3 < usize::MAX ==> r is Ok,
        r matches Ok(config) ==> running_sum_configured(*old(cs), *final(cs), config)
            && config_distinct(config),
{
    let deposits = cs.advice_column();
    let sum = cs.advice_column();
    let public = cs.instance_column();
    cs.enable_equality(deposits)?;
    cs.enable_equality(sum)?;
    cs.enable_instance_equality(public)?;

    if cs.num_selectors >= usize::MAX - 3 {
        return Err(Error::SizeTooLarge);
    }
    let selector_first_row = cs.selector();
    let selector_running_sum = cs.selector();
    let selector_total = cs.selector();

    proof {
        let na = cs.num_advice();
        let ni = cs.num_instance();
        let ns = cs.num_selectors as int;
        let dep = deposits.index;
        let sm = sum.index;
        assert(expr_wf(Expression::Advice { column: dep, rotation: 0 }, na, ni, ns));
        assert(expr_wf(Expression::Advice { column: sm, rotation: 0 }, na, ni, ns));
        assert(expr_wf(Expression::Advice { column: sm, rotation: -1i32 }, na, ni, ns));
        assert(expr_wf(
            Expression::Sum(
                Box::new(Expression::Advice { column: sm, rotation: -1i32 }),
                Box::new(Expression::Advice { column: dep, rotation: 0 }),
            ),
            na,
            ni,
            ns,
        ));
        assert(expr_wf(
            Expression::Negate(Box::new(Expression::Advice { column: sm, rotation: 0 })),
            na,
            ni,
            ns,
        ));
        assert(expr_wf(running_sum_poly(dep, sm), na, ni, ns));
        assert(expr_wf(total_poly(sm), na, ni, ns));
    }

    let mut first_row: Vec<Expression> = Vec::new();
    first_row.push(Expression::advice(deposits, 0));
    first_row.push(Expression::advice(sum, 0));
    cs.create_gate(String::from_str("first row"), selector_first_row, first_row)?;

    let mut running: Vec<Expression> = Vec::new();
    running.push(
        Expression::advice(sum, -1).add(Expression::advice(deposits, 0)).sub(
            Expression::advice(sum, 0),
        ),
    );
    cs.create_gate(String::from_str("running sum"), selector_running_sum, running)?;

    let mut total: Vec<Expression> = Vec::new();
    total.push(Expression::advice(sum, -1).sub(Expression::advice(sum, 0)));
    cs.create_gate(String::from_str("total"), selector_total, total)?;

    Ok(CasinoConfig {
        deposits,
        sum,
        public,
        selector_first_row,
        selector_running_sum,
        selector_total,
    })
}

/// Fills the running-sum witness: zeros on row 0, one deposit and one
/// partial sum per later row, the claimed total on the closing row, and
/// the claimed total bound to the public input.  Returns the output cell.
pub fn synthesize_running_sum(
    deposits: &Vec<Value>,
    claimed_total: Value,
    config: &CasinoConfig,
    asn: &mut Assigner,
) -> (r: Result<Cell, Error>)
    requires
        old(asn).wf(),
    ensures
        final(asn).wf(),
        ({
            let o = old(asn).offset + old(asn).used;
            ((config.deposits.index as int) < old(asn).table.num_advice() && (
            config.sum.index as int) < old(asn).table.num_advice() && old(
                asn,
            ).table.advice_eq@[config.sum.index as int] && (config.public.index as int) < old(
                asn,
            ).table.num_instance() && old(asn).table.instance_eq@[config.public.index as int]
                && config.selector_first_row.index < old(asn).table.selectors@.len()
                && config.selector_running_sum.index < old(asn).table.selectors@.len()
                && config.selector_total.index < old(asn).table.selectors@.len() && o
                + deposits@.len() + 2 <= old(asn).table.rows) ==> r is Ok
        }),
        config_distinct(*config) ==> (r matches Ok(out) ==> running_sum_synthesized(
            *old(asn),
            *final(asn),
            *config,
            deposits@,
            claimed_total,
            out,
        )),
{
    let ghost o = old(asn).offset + old(asn).used;
    let ghost dep = config.deposits.index as int;
    let ghost sm = config.sum.index as int;
    let ghost sf = config.selector_first_row.index as int;
    let ghost sr = config.selector_running_sum.index as int;
    let ghost st = config.selector_total.index as int;
    asn.begin_region();
    asn.enable_selector(config.selector_first_row, 0)?;
    asn.assign_advice(config.deposits, 0, Value::known(FieldElement::zero()))?;
    asn.assign_advice(config.sum, 0, Value::known(FieldElement::zero()))?;

    let mut sum = Value::known(FieldElement::zero());
    let mut i: usize = 0;
    while i < deposits.len()
        invariant
            asn.wf(),
            i <= deposits@.len(),
            o == old(asn).offset + old(asn).used,
            dep == config.deposits.index as int,
            sm == config.sum.index as int,
            sf == config.selector_first_row.index as int,
            sr == config.selector_running_sum.index as int,
            st == config.selector_total.index as int,
            asn.offset == o,
            asn.used as int == i + 1,
            asn.table.rows == old(asn).table.rows,
            asn.table.advice@.len() == old(asn).table.advice@.len(),
            asn.table.selectors@.len() == old(asn).table.selectors@.len(),
            dep < old(asn).table.advice@.len(),
            sm < old(asn).table.advice@.len(),
            sf < old(asn).table.selectors@.len(),
            o < old(asn).table.rows,
            sum.as_opt() == deposits_sum(deposits@, i as int),
            asn.table.tables@ == old(asn).table.tables@,
            asn.table.advice_eq@ == old(asn).table.advice_eq@,
            asn.table.instance_eq@ == old(asn).table.instance_eq@,
            asn.table.copies@ == old(asn).table.copies@,
            asn.table.bindings@ == old(asn).table.bindings@,
            config_distinct(*config) ==> forall|j: int|
                0 <= j < old(asn).table.advice@.len() && j != dep && j != sm
                    ==> #[trigger] asn.table.advice@[j] == old(asn).table.advice@[j],
            config_distinct(*config) ==> asn.table.advice@[dep]@.len() == old(
                asn,
            ).table.advice@[dep]@.len(),
            config_distinct(*config) ==> asn.table.advice@[sm]@.len() == old(
                asn,
            ).table.advice@[sm]@.len(),
            config_distinct(*config) ==> forall|r: int|
                0 <= r < old(asn).table.advice@[dep]@.len() && !(o <= r <= o + i)
                    ==> #[trigger] asn.table.advice@[dep]@[r] == old(asn).table.advice@[dep]@[r],
            config_distinct(*config) ==> forall|r: int|
                0 <= r < old(asn).table.advice@[sm]@.len() && !(o <= r <= o + i)
                    ==> #[trigger] asn.table.advice@[sm]@[r] == old(asn).table.advice@[sm]@[r],
            config_distinct(*config) ==> asn.table.advice@[dep]@[o].as_opt() == Some(0int),
            config_distinct(*config) ==> asn.table.advice@[sm]@[o].as_opt() == Some(0int),
            config_distinct(*config) ==> forall|k: int|
                0 <= k < i ==> #[trigger] asn.table.advice@[dep]@[o + 1 + k] == deposits@[k],
            config_distinct(*config) ==> forall|k: int|
                0 <= k < i ==> (#[trigger] asn.table.advice@[sm]@[o + 1 + k]).as_opt()
                    == deposits_sum(deposits@, k + 1),
            config_distinct(*config) ==> forall|j: int|
                0 <= j < old(asn).table.selectors@.len() && j != sf && j != sr && j != st
                    ==> #[trigger] asn.table.selectors@[j] == old(asn).table.selectors@[j],
            config_distinct(*config) ==> asn.table.selectors@[sf]@ == old(
                asn,
            ).table.selectors@[sf]@.update(o, true),
            (config_distinct(*config) && sr < old(asn).table.selectors@.len())
                ==> asn.table.selectors@[sr]@.len() == old(asn).table.selectors@[sr]@.len(),
            (config_distinct(*config) && sr < old(asn).table.selectors@.len()) ==> forall|r: int|
                0 <= r < old(asn).table.selectors@[sr]@.len() && !(o + 1 <= r <= o + i)
                    ==> #[trigger] asn.table.selectors@[sr]@[r] == old(
                    asn,
                ).table.selectors@[sr]@[r],
            (config_distinct(*config) && sr < old(asn).table.selectors@.len()) ==> forall|r: int|
                o + 1 <= r <= o + i && r < old(asn).table.selectors@[sr]@.len()
                    ==> #[trigger] asn.table.selectors@[sr]@[r],
            (config_distinct(*config) && st < old(asn).table.selectors@.len())
                ==> asn.table.selectors@[st]@ == old(asn).table.selectors@[st]@,
        decreases deposits@.len() - i,
    {
        if i >= usize::MAX - 1 {
            return Err(Error::RowOutOfBounds);
        }
        asn.enable_selector(config.selector_running_sum, i + 1)?;
        asn.assign_advice(config.deposits, i + 1, deposits[i])?;
        sum = sum.add(deposits[i]);
        asn.assign_advice(config.sum, i + 1, sum)?;
        i = i + 1;
    }
    if i >= usize::MAX - 1 {
        return Err(Error::RowOutOfBounds);
    }
    asn.enable_selector(config.selector_total, i + 1)?;
    let out = asn.assign_advice(config.sum, i + 1, claimed_total)?;
    asn.constrain_instance(out, config.public, 0)?;
    Ok(out)
}

impl CasinoCircuit {
    /// Registers the stage-two shape.
    pub fn configure(cs: &mut ConstraintSystem) -> (r: Result<CasinoConfig, Error>)
        requires
            old(cs).wf(),
        ensures
            final(cs).wf(),
            (old(cs).num_selectors as int) + 3 < usize::MAX ==> r is Ok,
            r matches Ok(config) ==> running_sum_configured(*old(cs), *final(cs), config)
                && config_distinct(config),
    {
        configure_running_sum(cs)
    }

    /// Fills the stage-two witness.
    pub fn synthesize(&self, config: &CasinoConfig, asn: &mut Assigner) -> (r: Result<Cell, Error>)
        requires
            old(asn).wf(),
        ensures
            final(asn).wf(),
            ({
                let o = old(asn).offset + old(asn).used;
                ((config.deposits.index as int) < old(asn).table.num_advice() && (
                config.sum.index as int) < old(asn).table.num_advice() && old(
                    asn,
                ).table.advice_eq@[config.sum.index as int] && (config.public.index as int) < old(
                    asn,
                ).table.num_instance() && old(asn).table.instance_eq@[config.public.index as int]
                    && config.selector_first_row.index < old(asn).table.selectors@.len()
                    && config.selector_running_sum.index < old(asn).table.selectors@.len()
                    && config.selector_total.index < old(asn).table.selectors@.len() && o
                    + self.deposits@.len() + 2 <= old(asn).table.rows) ==> r is Ok
            }),
            config_distinct(*config) ==> (r matches Ok(out) ==> running_sum_synthesized(
                *old(asn),
                *final(asn),
                *config,
                self.deposits@,
                self.total,
                out,
            )),
    {
        synthesize_running_sum(&self.deposits, self.total, config, asn)
    }
}

} // verus!
