//! Casino, stage one: deposits and their total are written down with no
//! constraint beyond copying the output cell to the public input.  Any
//! value written over the output cell passes.

use vstd::prelude::*;

use crate::assign::Assigner;
use crate::assign::InstanceBinding;
use crate::casino::deposits_sum;
use crate::error::Error;
use crate::field::FieldElement;
use crate::layout::AdviceColumn;
use crate::layout::Cell;
use crate::layout::InstanceColumn;
use crate::system::ConstraintSystem;
use crate::value::Value;

verus! {

/// The deposits to record.
pub struct CasinoCircuit {
    pub deposits: Vec<Value>,
}

/// The stage-one columns: one advice column, one public-input column.
#[derive(Clone, Copy, Debug)]
pub struct CasinoConfig {
    pub advice: AdviceColumn,
    pub instance: InstanceColumn,
}

/// What [`CasinoCircuit::configure`] does to the constraint system: one
/// fresh equality-enabled advice column, one fresh equality-enabled
/// instance column, and nothing else — no gate, no lookup.
pub open spec fn configured(
    pre: ConstraintSystem,
    post: ConstraintSystem,
    config: CasinoConfig,
) -> bool {
    &&& (config.advice.index as int) == pre.num_advice()
    &&& (config.instance.index as int) == pre.num_instance()
    &&& post.advice_eq@ == pre.advice_eq@.push(false).update(config.advice.index as int, true)
    &&& post.instance_eq@ == pre.instance_eq@.push(false).update(
        config.instance.index as int,
        true,
    )
    &&& post.num_table_columns == pre.num_table_columns
    &&& post.num_selectors == pre.num_selectors
    &&& post.gates@ == pre.gates@
    &&& post.lookups@ == pre.lookups@
}

/// What [`CasinoCircuit::synthesize`] does to the assigner: each deposit
/// on one fresh row, their sum on the next, and the sum cell bound to
/// public input 0.
pub open spec fn synthesized(
    pre: Assigner,
    post: Assigner,
    config: CasinoConfig,
    deposits: Seq<Value>,
    out: Cell,
) -> bool {
    let o = pre.offset + pre.used;
    let c = config.advice.index as int;
    let n = deposits.len() as int;
    &&& out.column == config.advice.index
    &&& out.row as int == o + n
    &&& post.offset == o
    &&& post.used as int == n + 1
    &&& post.table.rows == pre.table.rows
    &&& post.table.advice@.len() == pre.table.advice@.len()
    &&& forall|j: int|
        0 <= j < pre.table.advice@.len() && j != c ==> #[trigger] post.table.advice@[j]
            == pre.table.advice@[j]
    &&& post.table.advice@[c]@.len() == pre.table.advice@[c]@.len()
    &&& forall|r: int|
        0 <= r < pre.table.advice@[c]@.len() && !(o <= r <= o + n)
            ==> #[trigger] post.table.advice@[c]@[r] == pre.table.advice@[c]@[r]
    &&& forall|i: int| 0 <= i < n ==> #[trigger] post.table.advice@[c]@[o + i] == deposits[i]
    &&& post.table.advice@[c]@[o + n].as_opt() == deposits_sum(deposits, n)
    &&& post.table.selectors@ == pre.table.selectors@
    &&& post.table.tables@ == pre.table.tables@
    &&& post.table.advice_eq@ == pre.table.advice_eq@
    &&& post.table.instance_eq@ == pre.table.instance_eq@
    &&& post.table.copies@ == pre.table.copies@
    &&& post.table.bindings@ == pre.table.bindings@.push(
        InstanceBinding { cell: out, column: config.instance.index, row: 0 },
    )
}

impl CasinoCircuit {
    /// Registers the columns; no gate, no lookup.
    pub fn configure(cs: &mut ConstraintSystem) -> (r: Result<CasinoConfig, Error>)
        requires
            old(cs).wf(),
        ensures
            final(cs).wf(),
            r is Ok,
            r matches Ok(config) ==> configured(*old(cs), *final(cs), config),
    {
        let advice = cs.advice_column();
        let instance = cs.instance_column();
        cs.enable_equality(advice)?;
        cs.enable_instance_equality(instance)?;
        Ok(CasinoConfig { advice, instance })
    }

    /// Writes each deposit into one row, their sum into the next row, and
    /// binds the sum to the public input.  Returns the output cell.
    pub fn synthesize(&self, config: &CasinoConfig, asn: &mut Assigner) -> (r: Result<Cell, Error>)
        requires
            old(asn).wf(),
        ensures
            final(asn).wf(),
            ({
                let o = old(asn).offset + old(asn).used;
                ((config.advice.index as int) < old(asn).table.num_advice() && old(
                    asn,
                ).table.advice_eq@[config.advice.index as int] && (config.instance.index as int)
                    < old(asn).table.num_instance() && old(
                    asn,
                ).table.instance_eq@[config.instance.index as int] && o + self.deposits@.len() + 1
                    <= old(asn).table.rows) ==> r is Ok
            }),
            r matches Ok(out) ==> synthesized(
                *old(asn),
                *final(asn),
                *config,
                self.deposits@,
                out,
            ),
    {
        asn.begin_region();
        let ghost o = old(asn).offset + old(asn).used;
        let ghost c = config.advice.index as int;
        let mut total = Value::known(FieldElement::zero());
        let mut i: usize = 0;
        while i < self.deposits.len()
            invariant
                asn.wf(),
                i <= self.deposits@.len(),
                o == old(asn).offset + old(asn).used,
                c == config.advice.index as int,
                asn.offset == o,
                asn.used == i,
                asn.table.rows == old(asn).table.rows,
                asn.table.advice@.len() == old(asn).table.advice@.len(),
                forall|j: int|
                    0 <= j < old(asn).table.advice@.len() && j != c
                        ==> #[trigger] asn.table.advice@[j] == old(asn).table.advice@[j],
                (config.advice.index as int) < old(asn).table.num_advice()
                    ==> asn.table.advice@[c]@.len() == old(asn).table.advice@[c]@.len(),
                forall|r: int|
                    0 <= r < old(asn).table.advice@[c]@.len() && !(o <= r < o + i)
                        ==> #[trigger] asn.table.advice@[c]@[r] == old(asn).table.advice@[c]@[r],
                forall|k: int|
                    0 <= k < i ==> #[trigger] asn.table.advice@[c]@[o + k] == self.deposits@[k],
                total.as_opt() == deposits_sum(self.deposits@, i as int),
                asn.table.selectors@ == old(asn).table.selectors@,
                asn.table.tables@ == old(asn).table.tables@,
                asn.table.advice_eq@ == old(asn).table.advice_eq@,
                asn.table.instance_eq@ == old(asn).table.instance_eq@,
                asn.table.copies@ == old(asn).table.copies@,
                asn.table.bindings@ == old(asn).table.bindings@,
            decreases self.deposits@.len() - i,
        {
            asn.assign_advice(config.advice, i, self.deposits[i])?;
            total = total.add(self.deposits[i]);
            i = i + 1;
        }
        let out = asn.assign_advice(config.advice, i, total)?;
        asn.constrain_instance(out, config.instance, 0)?;
        Ok(out)
    }
}

} // verus!
