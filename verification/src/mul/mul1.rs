//! Multiplication, middle stage: the product cell is copied to the
//! public input, but no gate relates it to the factors — so the honest
//! product is compared against the claimed result, yet overwriting the
//! product cell forges any result.

use vstd::prelude::*;

use crate::assign::Assigner;
use crate::assign::InstanceBinding;
use crate::error::Error;
use crate::layout::AdviceColumn;
use crate::layout::Cell;
use crate::layout::InstanceColumn;
use crate::system::ConstraintSystem;
use crate::value::opt_mul;
use crate::value::Value;

verus! {

/// The two factors.
pub struct MultiplicationCircuit {
    pub a: Value,
    pub b: Value,
}

/// One advice column and the public-input column.
#[derive(Clone, Copy, Debug)]
pub struct MultiplicationConfig {
    pub advice: AdviceColumn,
    pub instance: InstanceColumn,
}

/// What [`MultiplicationCircuit::configure`] does to the constraint
/// system: one fresh equality-enabled advice column, one fresh
/// equality-enabled instance column, and nothing else.
pub open spec fn configured(
    pre: ConstraintSystem,
    post: ConstraintSystem,
    config: MultiplicationConfig,
) -> bool {
    &&& (config.advice.index as int) == pre.num_advice()
    &&& (config.instance.index as int) == pre.num_instance()
    &&& post.advice_eq@ == pre.advice_eq@.push(false).update(config.advice.index as int, true)
    &&& post.instance_eq@ == pre.instance_eq@.push(false).update(
        config.instance.index as int,
        true,
    )
    &&& post.num_table_columns == pre.num_table_columns
    &&& post.num_selectors == pre.num_selectors
    &&& post.gates@ == pre.gates@
    &&& post.lookups@ == pre.lookups@
}

/// What [`MultiplicationCircuit::synthesize`] does to the assigner: the
/// two factors and their product on three fresh rows, and the product
/// cell bound to public input 0 — no selector, no gate behind it.
pub open spec fn synthesized(
    pre: Assigner,
    post: Assigner,
    config: MultiplicationConfig,
    a: Value,
    b: Value,
    out: Cell,
) -> bool {
    let o = pre.offset + pre.used;
    let c = config.advice.index as int;
    &&& out.column == config.advice.index
    &&& out.row as int == o + 2
    &&& post.offset == o
    &&& post.used == 3
    &&& post.table.rows == pre.table.rows
    &&& post.table.advice@.len() == pre.table.advice@.len()
    &&& forall|j: int|
        0 <= j < pre.table.advice@.len() && j != c ==> #[trigger] post.table.advice@[j]
            == pre.table.advice@[j]
    &&& post.table.advice@[c]@ == pre.table.advice@[c]@.update(o, a).update(o + 1, b).update(
        o + 2,
        post.table.advice@[c]@[o + 2],
    )
    &&& post.table.advice@[c]@[o + 2].as_opt() == opt_mul(a.as_opt(), b.as_opt())
    &&& post.table.selectors@ == pre.table.selectors@
    &&& post.table.tables@ == pre.table.tables@
    &&& post.table.advice_eq@ == pre.table.advice_eq@
    &&& post.table.instance_eq@ == pre.table.instance_eq@
    &&& post.table.copies@ == pre.table.copies@
    &&& post.table.bindings@ == pre.table.bindings@.push(
        InstanceBinding { cell: out, column: config.instance.index, row: 0 },
    )
}

impl MultiplicationCircuit {
    /// Registers the columns; the output will be copied to the public
    /// input, but no gate constrains it.
    pub fn configure(cs: &mut ConstraintSystem) -> (r: Result<MultiplicationConfig, Error>)
        requires
            old(cs).wf(),
        ensures
            final(cs).wf(),
            r is Ok,
            r matches Ok(config) ==> configured(*old(cs), *final(cs), config),
    {
        let advice = cs.advice_column();
        let instance = cs.instance_column();
        cs.enable_equality(advice)?;
        cs.enable_instance_equality(instance)?;
        Ok(MultiplicationConfig { advice, instance })
    }

    /// Writes `a`, `b` and `a * b` into three fresh rows and binds the
    /// product to the public input.
    pub fn synthesize(&self, config: &MultiplicationConfig, asn: &mut Assigner) -> (r: Result<
        Cell,
        Error,
    >)
        requires
            old(asn).wf(),
        ensures
            final(asn).wf(),
            ({
                let o = old(asn).offset + old(asn).used;
                ((config.advice.index as int) < old(asn).table.num_advice() && old(
                    asn,
                ).table.advice_eq@[config.advice.index as int] && (config.instance.index as int)
                    < old(asn).table.num_instance() && old(
                    asn,
                ).table.instance_eq@[config.instance.index as int] && o + 3 <= old(
                    asn,
                ).table.rows) ==> r is Ok
            }),
            r matches Ok(out) ==> synthesized(*old(asn), *final(asn), *config, self.a, self.b, out),
    {
        asn.begin_region();
        asn.assign_advice(config.advice, 0, self.a)?;
        asn.assign_advice(config.advice, 1, self.b)?;
        let out = asn.assign_advice(config.advice, 2, self.a.mul(self.b))?;
        asn.constrain_instance(out, config.instance, 0)?;
        Ok(out)
    }
}

} // verus!
