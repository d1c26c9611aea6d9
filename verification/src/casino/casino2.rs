//! Casino, stage three: the running-sum gates plus a lookup range check.
//!
//! Every row of the deposit column must hold a value that appears in a
//! table populated with `0 .. 1000`, so the field-wraparound deposit of
//! stage two is finally rejected.  Rows the circuit does not use are
//! padded with zero, which the table contains.

use vstd::prelude::*;
use vstd::string::StringExecFns;

use crate::assign::Assigner;
use crate::casino::casino1::config_distinct;
use crate::casino::casino1::configure_running_sum;
use crate::casino::casino1::running_sum_synthesized;
use crate::casino::casino1::synthesize_running_sum;
use crate::casino::casino1::CasinoConfig as RunningSumConfig;
use crate::casino::deposits_sum;
use crate::error::Error;
use crate::expression::Expression;
use crate::field::FieldElement;
use crate::layout::Cell;
use crate::layout::TableColumn;
use crate::system::ConstraintSystem;
use crate::value::Value;

verus! {

/// The deposits and the total the owner claims they reach.
pub struct CasinoCircuit {
    pub deposits: Vec<Value>,
    pub total: Value,
}

/// The stage-three shape: the running-sum shape plus the range table.
#[derive(Clone, Copy, Debug)]
pub struct CasinoConfig {
    pub running: RunningSumConfig,
    pub lookup_table: TableColumn,
}

/// What [`CasinoCircuit::configure`] adds beyond the running-sum shape:
/// one fresh table column and a lookup binding every deposit-column row
/// to it.
pub open spec fn range_configured(
    pre: ConstraintSystem,
    post: ConstraintSystem,
    config: CasinoConfig,
) -> bool {
    &&& (config.running.deposits.index as int) == pre.num_advice()
    &&& (config.running.sum.index as int) == pre.num_advice() + 1
    &&& (config.running.public.index as int) == pre.num_instance()
    &&& config.running.selector_first_row.index == pre.num_selectors
    &&& (config.running.selector_running_sum.index as int) == pre.num_selectors + 1
    &&& (config.running.selector_total.index as int) == pre.num_selectors + 2
    &&& post.advice_eq@ == pre.advice_eq@.push(false).push(false).update(
        config.running.deposits.index as int,
        true,
    ).update(config.running.sum.index as int, true)
    &&& post.instance_eq@ == pre.instance_eq@.push(false).update(
        config.running.public.index as int,
        true,
    )
    &&& (post.num_selectors as int) == pre.num_selectors + 3
    &&& post.gates@.len() == pre.gates@.len() + 3
    &&& forall|g: int| 0 <= g < pre.gates@.len() ==> #[trigger] post.gates@[g] == pre.gates@[g]
    &&& post.gates@[pre.gates@.len() as int].selector == config.running.selector_first_row.index
    &&& post.gates@[pre.gates@.len() as int].polys@ =~= crate::casino::casino1::first_row_polys(
        config.running.deposits.index,
        config.running.sum.index,
    )
    &&& post.gates@[pre.gates@.len() as int].name@ == "first row"@
    &&& post.gates@[pre.gates@.len() as int + 1].selector
        == config.running.selector_running_sum.index
    &&& post.gates@[pre.gates@.len() as int + 1].polys@ =~= seq![
        crate::casino::casino1::running_sum_poly(
            config.running.deposits.index,
            config.running.sum.index,
        ),
    ]
    &&& post.gates@[pre.gates@.len() as int + 1].name@ == "running sum"@
    &&& post.gates@[pre.gates@.len() as int + 2].selector == config.running.selector_total.index
    &&& post.gates@[pre.gates@.len() as int + 2].polys@ =~= seq![
        crate::casino::casino1::total_poly(config.running.sum.index),
    ]
    &&& post.gates@[pre.gates@.len() as int + 2].name@ == "total"@
    &&& config_distinct(config.running)
    &&& config.lookup_table.index == pre.num_table_columns
    &&& post.num_table_columns == pre.num_table_columns + 1
    &&& post.lookups@.len() == pre.lookups@.len() + 1
    &&& forall|l: int| 0 <= l < pre.lookups@.len() ==> #[trigger] post.lookups@[l] == pre.lookups@[l]
    &&& post.lookups@.last().input == (Expression::Advice {
        column: config.running.deposits.index,
        rotation: 0,
    })
    &&& post.lookups@.last().table == config.lookup_table.index
    &&& post.lookups@.last().name@ == "range check"@
}

/// The lookup table value at `(col, r)` as an integer, `None` for a slot
/// never assigned.
pub open spec fn table_val(t: crate::assign::AssignmentTable, col: int, r: int) -> Option<int> {
    match t.tables@[col]@[r] {
        Some(f) => Some(f.as_int()),
        None => None,
    }
}

/// What [`CasinoCircuit::synthesize`] does to a fresh assigner, for a
/// non-aliased config: the range table holds `0 .. 1000`, the running-sum
/// witness fills the first `n + 2` rows, and every remaining deposit row
/// is padded with zero.
pub open spec fn range_synthesized(
    pre: Assigner,
    post: Assigner,
    config: CasinoConfig,
    deposits: Seq<Value>,
    claimed: Value,
    out: Cell,
) -> bool {
    let dep = config.running.deposits.index as int;
    let lt = config.lookup_table.index as int;
    let n = deposits.len() as int;
    let rows = pre.table.rows as int;
    &&& out.column == config.running.sum.index
    &&& out.row as int == n + 1
    &&& post.table.rows == pre.table.rows
    &&& post.table.advice@.len() == pre.table.advice@.len()
    &&& forall|j: int|
        0 <= j < pre.table.advice@.len() && j != dep && j != config.running.sum.index as int
            ==> #[trigger] post.table.advice@[j] == pre.table.advice@[j]
    &&& post.table.advice@[dep]@.len() == pre.table.advice@[dep]@.len()
    &&& post.table.advice@[dep]@[0].as_opt() == Some(0int)
    &&& forall|i: int| 0 <= i < n ==> #[trigger] post.table.advice@[dep]@[1 + i] == deposits[i]
    &&& forall|r: int|
        n + 1 <= r < rows ==> (#[trigger] post.table.advice@[dep]@[r]).as_opt() == Some(0int)
    &&& post.table.advice@[config.running.sum.index as int]@[0].as_opt() == Some(0int)
    &&& forall|i: int|
        0 <= i < n ==> (#[trigger] post.table.advice@[config.running.sum.index as int]@[1
            + i]).as_opt() == deposits_sum(deposits, i + 1)
    &&& post.table.advice@[config.running.sum.index as int]@[n + 1] == claimed
    &&& post.table.selectors@.len() == pre.table.selectors@.len()
    &&& post.table.selectors@[config.running.selector_first_row.index as int]@
        == pre.table.selectors@[config.running.selector_first_row.index as int]@.update(0, true)
    &&& (config.running.selector_running_sum.index < pre.table.selectors@.len() ==> forall|r: int|
        1 <= r <= n && r < pre.table.selectors@[config.running.selector_running_sum.index as int]@.len()
            ==> #[trigger] post.table.selectors@[config.running.selector_running_sum.index as int]@[r])
    &&& (config.running.selector_running_sum.index < pre.table.selectors@.len() ==> forall|r: int|
        0 <= r < pre.table.selectors@[config.running.selector_running_sum.index as int]@.len()
            && !(1 <= r <= n)
            ==> #[trigger] post.table.selectors@[config.running.selector_running_sum.index as int]@[r]
            == pre.table.selectors@[config.running.selector_running_sum.index as int]@[r])
    &&& post.table.selectors@[config.running.selector_total.index as int]@
        == pre.table.selectors@[config.running.selector_total.index as int]@.update(n + 1, true)
    &&& forall|j: int|
        0 <= j < pre.table.selectors@.len() && j != config.running.selector_first_row.index as int
            && j != config.running.selector_running_sum.index as int
            && j != config.running.selector_total.index as int
            ==> #[trigger] post.table.selectors@[j] == pre.table.selectors@[j]
    &&& post.table.tables@.len() == pre.table.tables@.len()
    &&& forall|j: int|
        0 <= j < pre.table.tables@.len() && j != lt ==> #[trigger] post.table.tables@[j]
            == pre.table.tables@[j]
    &&& post.table.tables@[lt]@.len() == pre.table.tables@[lt]@.len()
    &&& forall|r: int| 0 <= r < 1000 ==> #[trigger] table_val(post.table, lt, r) == Some(r)
    &&& forall|r: int|
        1000 <= r < pre.table.tables@[lt]@.len() ==> #[trigger] post.table.tables@[lt]@[r]
            == pre.table.tables@[lt]@[r]
    &&& post.table.advice_eq@ == pre.table.advice_eq@
    &&& post.table.instance_eq@ == pre.table.instance_eq@
    &&& post.table.copies@ == pre.table.copies@
    &&& post.table.bindings@ == pre.table.bindings@.push(
        crate::assign::InstanceBinding {
            cell: out,
            column: config.running.public.index,
            row: 0,
        },
    )
}

impl CasinoCircuit {
    /// Registers the running-sum shape and a lookup binding every deposit
    /// row to the range table.
    pub fn configure(cs: &mut ConstraintSystem) -> (r: Result<CasinoConfig, Error>)
        requires
            old(cs).wf(),
        ensures
            final(cs).wf(),
            ((old(cs).num_selectors as int) + 3 < usize::MAX && old(cs).num_table_columns
                < usize::MAX) ==> r is Ok,
            r matches Ok(config) ==> range_configured(*old(cs), *final(cs), config),
    {
        let running = configure_running_sum(cs)?;
        if cs.num_table_columns == usize::MAX {
            return Err(Error::SizeTooLarge);
        }
        let lookup_table = cs.lookup_table_column();
        cs.lookup(
            String::from_str("range check"),
            Expression::advice(running.deposits, 0),
            lookup_table,
        )?;
        Ok(CasinoConfig { running, lookup_table })
    }

    /// Populates the range table with `0 .. 1000`, fills the running-sum
    /// witness, and pads every unused deposit row with zero.
    #[verifier::loop_isolation(false)]
    pub fn synthesize(&self, config: &CasinoConfig, asn: &mut Assigner) -> (r: Result<Cell, Error>)
        requires
            old(asn).wf(),
        ensures
            final(asn).wf(),
            ((config.running.deposits.index as int) < old(asn).table.num_advice() && (
            config.running.sum.index as int) < old(asn).table.num_advice() && old(
                asn,
            ).table.advice_eq@[config.running.sum.index as int] && (
            config.running.public.index as int) < old(asn).table.num_instance() && old(
                asn,
            ).table.instance_eq@[config.running.public.index as int]
                && config.running.selector_first_row.index < old(asn).table.selectors@.len()
                && config.running.selector_running_sum.index < old(asn).table.selectors@.len()
                && config.running.selector_total.index < old(asn).table.selectors@.len()
                && config.lookup_table.index < old(asn).table.tables@.len()
                && config_distinct(config.running) && old(asn).offset == 0
                && old(asn).used == 0 && self.deposits@.len() + 2 <= old(asn).table.rows && 1000
                <= old(asn).table.rows && forall|r: int|
                0 <= r < 1000 ==> (#[trigger] old(asn).table.tables@[config.lookup_table.index as int]@[r])
                    is None) ==> r is Ok,
            (config_distinct(config.running) && old(asn).offset == 0 && old(asn).used == 0) ==> (
            r matches Ok(out) ==> range_synthesized(
                *old(asn),
                *final(asn),
                *config,
                self.deposits@,
                self.total,
                out,
            )),
    {
        let ghost lt = config.lookup_table.index as int;
        let mut row: usize = 0;
        while row < 1000
            invariant
                asn.wf(),
                row <= 1000,
                row <= old(asn).table.rows,
                row > 0 ==> lt < old(asn).table.tables@.len(),
                lt == config.lookup_table.index as int,
                asn.offset == old(asn).offset,
                asn.used == old(asn).used,
                asn.table.rows == old(asn).table.rows,
                asn.table.advice@ == old(asn).table.advice@,
                asn.table.selectors@ == old(asn).table.selectors@,
                asn.table.advice_eq@ == old(asn).table.advice_eq@,
                asn.table.instance_eq@ == old(asn).table.instance_eq@,
                asn.table.copies@ == old(asn).table.copies@,
                asn.table.bindings@ == old(asn).table.bindings@,
                asn.table.tables@.len() == old(asn).table.tables@.len(),
                forall|j: int|
                    0 <= j < old(asn).table.tables@.len() && j != lt
                        ==> #[trigger] asn.table.tables@[j] == old(asn).table.tables@[j],
                lt < old(asn).table.tables@.len() ==> asn.table.tables@[lt]@.len() == old(
                    asn,
                ).table.tables@[lt]@.len(),
                forall|r: int|
                    0 <= r < row ==> #[trigger] table_val(asn.table, lt, r) == Some(r),
                forall|r: int|
                    row <= r < old(asn).table.tables@[lt]@.len()
                        ==> #[trigger] asn.table.tables@[lt]@[r] == old(asn).table.tables@[lt]@[r],
            decreases 1000 - row,
        {
            proof {
                vstd::arithmetic::div_mod::lemma_small_mod(
                    row as nat,
                    crate::field::MODULUS as nat,
                );
            }
            let ghost head = *asn;
            match asn.assign_table_cell(
                config.lookup_table,
                row,
                FieldElement::from_u64(row as u64),
            ) {
                Ok(()) => {},
                Err(e) => {
                    proof {
                        if (config.lookup_table.index as int) < old(asn).table.tables@.len()
                            && 1000 <= old(asn).table.rows && (forall|r: int|
                            0 <= r < 1000 ==> (#[trigger] old(
                                asn,
                            ).table.tables@[config.lookup_table.index as int]@[r]) is None) {
                            assert(asn.table.tables@[lt]@[row as int] == old(
                                asn,
                            ).table.tables@[lt]@[row as int]);
                            assert(old(asn).table.tables@[lt]@[row as int] is None);
                            assert(false);
                        }
                    }
                    return Err(e);
                },
            }
            proof {
                assert((row as u64) as int % (crate::field::MODULUS as int) == row as int);
                assert(asn.table.tables@[lt]@[row as int] matches Some(f) && f.as_int()
                    == row as int);
                assert(asn.table.tables@[lt]@ == head.table.tables@[lt]@.update(
                    row as int,
                    asn.table.tables@[lt]@[row as int],
                ));
                assert forall|r: int| 0 <= r < row + 1 implies #[trigger] table_val(
                    asn.table,
                    lt,
                    r,
                ) == Some(r) by {
                    if r < row {
                        assert(head.table.tables@[lt]@.len() == head.table.rows);
                        assert(asn.table.tables@[lt]@[r] == head.table.tables@[lt]@[r]);
                        assert(table_val(head.table, lt, r) == Some(r));
                    }
                }
            }
            row = row + 1;
        }

        let ghost fill_done = *asn;
        let out = synthesize_running_sum(&self.deposits, self.total, &config.running, asn)?;

        // Pad the rest of the deposit column so the lookup, which checks
        // every row, finds an in-table value everywhere.
        if self.deposits.len() >= usize::MAX - 1 {
            return Err(Error::RowOutOfBounds);
        }
        let ghost mid = *asn;
        let ghost dep = config.running.deposits.index as int;
        let mut rel: usize = self.deposits.len() + 1;
        let rows = asn.table.rows;
        while rel < rows
            invariant
                asn.wf(),
                dep == config.running.deposits.index as int,
                self.deposits@.len() + 1 <= rel,
                rel > self.deposits@.len() + 1 ==> dep < asn.table.advice@.len(),
                asn.offset == mid.offset,
                asn.table.rows == mid.table.rows,
                rows == asn.table.rows,
                asn.table.advice@.len() == mid.table.advice@.len(),
                forall|j: int|
                    0 <= j < mid.table.advice@.len() && j != dep ==> #[trigger] asn.table.advice@[j]
                        == mid.table.advice@[j],
                dep < mid.table.advice@.len() ==> asn.table.advice@[dep]@.len()
                    == mid.table.advice@[dep]@.len(),
                forall|r: int|
                    0 <= r < mid.table.advice@[dep]@.len() && !(mid.offset
                        + self.deposits@.len() + 1 <= r < mid.offset + rel)
                        ==> #[trigger] asn.table.advice@[dep]@[r] == mid.table.advice@[dep]@[r],
                forall|r: int|
                    mid.offset + self.deposits@.len() + 1 <= r < mid.offset + rel && r
                        < mid.table.advice@[dep]@.len() ==> (
                    #[trigger] asn.table.advice@[dep]@[r]).as_opt() == Some(0int),
                asn.table.selectors@ == mid.table.selectors@,
                asn.table.tables@ == mid.table.tables@,
                asn.table.advice_eq@ == mid.table.advice_eq@,
                asn.table.instance_eq@ == mid.table.instance_eq@,
                asn.table.copies@ == mid.table.copies@,
                asn.table.bindings@ == mid.table.bindings@,
            decreases rows - rel,
        {
            match asn.assign_advice(
                config.running.deposits,
                rel,
                Value::known(FieldElement::zero()),
            ) {
                Ok(_) => {},
                Err(e) => {
                    proof {
                        if config_distinct(config.running) && old(asn).offset == 0 && old(
                            asn,
                        ).used == 0 && (config.running.deposits.index as int) < old(
                            asn,
                        ).table.num_advice() {
                            assert(running_sum_synthesized(
                                fill_done,
                                mid,
                                config.running,
                                self.deposits@,
                                self.total,
                                out,
                            ));
                            assert(mid.offset == 0);
                            assert(dep < asn.table.advice@.len());
                            assert(false);
                        }
                    }
                    return Err(e);
                },
            }
            rel = rel + 1;
        }
        proof {
            if config_distinct(config.running) && old(asn).offset == 0 && old(asn).used == 0 {
                assert(running_sum_synthesized(
                    fill_done,
                    mid,
                    config.running,
                    self.deposits@,
                    self.total,
                    out,
                ));
                let n = self.deposits@.len() as int;
                let depg = config.running.deposits.index as int;
                let smg = config.running.sum.index as int;
                let ltg = config.lookup_table.index as int;
                assert(mid.offset == 0);
                assert(asn.table.bindings@.len() > 0);
                assert(asn.table.binding_wf(
                    asn.table.bindings@[asn.table.bindings@.len() - 1],
                ));
                assert(out.row < asn.table.rows);
                assert(n + 1 < old(asn).table.rows);
                assert(rel >= rows);
                assert(rel > self.deposits@.len() + 1);
                assert(depg < asn.table.advice@.len());
                assert((config.running.sum.index as int) < asn.table.advice@.len());
                assert(old(asn).table.advice@[depg]@.len() == old(asn).table.rows);
                assert(old(asn).table.advice@[smg]@.len() == old(asn).table.rows);
                assert(fill_done.table.advice@ == old(asn).table.advice@);
                assert(fill_done.table.selectors@ == old(asn).table.selectors@);
                assert(out.row as int == n + 1);
                assert(asn.table.advice@[depg]@[0].as_opt() == Some(0int)) by {
                    assert(mid.table.advice@[depg]@[0].as_opt() == Some(0int));
                }
                assert forall|i: int| 0 <= i < n implies #[trigger] asn.table.advice@[depg]@[1 + i]
                    == self.deposits@[i] by {
                    assert(mid.table.advice@[depg]@[0 + 1 + i] == self.deposits@[i]);
                }
                assert forall|r: int|
                    n + 1 <= r < old(asn).table.rows implies (
                #[trigger] asn.table.advice@[depg]@[r]).as_opt() == Some(0int) by {
                    assert(mid.offset + self.deposits@.len() + 1 <= r < mid.offset
                        + old(asn).table.rows);
                }
                assert(asn.table.advice@[smg]@[0].as_opt() == Some(0int)) by {
                    assert(mid.table.advice@[smg]@[0].as_opt() == Some(0int));
                }
                assert forall|i: int|
                    0 <= i < n implies (#[trigger] asn.table.advice@[smg]@[1 + i]).as_opt()
                    == deposits_sum(self.deposits@, i + 1) by {
                    assert(mid.table.advice@[smg]@[0 + 1 + i].as_opt() == deposits_sum(
                        self.deposits@,
                        i + 1,
                    ));
                }
                assert(asn.table.advice@[smg]@[n + 1] == self.total) by {
                    assert(mid.table.advice@[smg]@[0 + n + 1] == self.total);
                }
                assert forall|r: int|
                    0 <= r < 1000 implies #[trigger] table_val(asn.table, ltg, r) == Some(r) by {
                    assert(table_val(fill_done.table, ltg, r) == Some(r));
                    assert(asn.table.tables@ == fill_done.table.tables@);
                }
            }
        }
        Ok(out)
    }
}

} // verus!
