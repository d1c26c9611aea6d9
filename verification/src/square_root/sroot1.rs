//! Square root, hardened stage: the root and its square sit on one row in
//! two columns, and a lookup binds every value of the root column to a
//! table of `0 ..= 10`, so the wrapped-around root is rejected.

use vstd::prelude::*;
use vstd::string::StringExecFns;

use crate::assign::Assigner;
use crate::assign::InstanceBinding;
use crate::error::Error;
use crate::expression::expr_wf;
use crate::expression::Expression;
use crate::field::FieldElement;
use crate::field::MODULUS;
use crate::layout::AdviceColumn;
use crate::layout::Cell;
use crate::layout::InstanceColumn;
use crate::layout::Selector;
use crate::system::ConstraintSystem;
use crate::value::opt_mul;
use crate::value::Value;

verus! {

/// The claimed root.
pub struct SquareRootCircuit {
    pub root: Value,
}

/// A root column, a square column, the public input, a gate selector
/// and the range table.
#[derive(Clone, Copy, Debug)]
pub struct SquareRootConfig {
    pub input: AdviceColumn,
    pub squared: AdviceColumn,
    pub instance: InstanceColumn,
    pub myselector: Selector,
    pub lookup_table: crate::layout::TableColumn,
}

/// The square gate's polynomial over the root column `c` and the square
/// column `d`, both at rotation 0: `c[r] * c[r] - d[r]`.
pub open spec fn square_row_poly(c: usize, d: usize) -> Expression {
    Expression::Sum(
        Box::new(
            Expression::Product(
                Box::new(Expression::Advice { column: c, rotation: 0 }),
                Box::new(Expression::Advice { column: c, rotation: 0 }),
            ),
        ),
        Box::new(Expression::Negate(Box::new(Expression::Advice { column: d, rotation: 0 }))),
    )
}

/// What [`SquareRootCircuit::configure`] does to the constraint system:
/// two fresh equality-enabled advice columns, a fresh equality-enabled
/// instance column, a selector, the square gate, a fresh table column and
/// the range lookup on the root column.
pub open spec fn configured(
    pre: ConstraintSystem,
    post: ConstraintSystem,
    config: SquareRootConfig,
) -> bool {
    &&& (config.input.index as int) == pre.num_advice()
    &&& (config.squared.index as int) == pre.num_advice() + 1
    &&& (config.instance.index as int) == pre.num_instance()
    &&& config.myselector.index == pre.num_selectors
    &&& config.lookup_table.index == pre.num_table_columns
    &&& post.advice_eq@ == pre.advice_eq@.push(false).push(false).update(
        config.input.index as int,
        true,
    ).update(config.squared.index as int, true)
    &&& post.instance_eq@ == pre.instance_eq@.push(false).update(
        config.instance.index as int,
        true,
    )
    &&& post.num_table_columns == pre.num_table_columns + 1
    &&& (post.num_selectors as int) == pre.num_selectors + 1
    &&& post.gates@.len() == pre.gates@.len() + 1
    &&& forall|g: int| 0 <= g < pre.gates@.len() ==> #[trigger] post.gates@[g] == pre.gates@[g]
    &&& post.gates@.last().selector == config.myselector.index
    &&& post.gates@.last().polys@ =~= seq![
        square_row_poly(config.input.index, config.squared.index),
    ]
    &&& post.gates@.last().name@ == "square"@
    &&& post.lookups@.len() == pre.lookups@.len() + 1
    &&& forall|l: int| 0 <= l < pre.lookups@.len() ==> #[trigger] post.lookups@[l] == pre.lookups@[l]
    &&& post.lookups@.last().input == (Expression::Advice {
        column: config.input.index,
        rotation: 0,
    })
    &&& post.lookups@.last().table == config.lookup_table.index
    &&& post.lookups@.last().name@ == "range check"@
}

/// What [`SquareRootCircuit::synthesize`] does to a fresh assigner for
/// distinct columns: the range table holds `0 ..= 10`, the root and its
/// square sit on row 0 with the square gate active, the square is bound to
/// public input 0, and every remaining root row is padded with zero.
pub open spec fn synthesized(
    pre: Assigner,
    post: Assigner,
    config: SquareRootConfig,
    root: Value,
    out: Cell,
) -> bool {
    let c = config.input.index as int;
    let d = config.squared.index as int;
    let s = config.myselector.index as int;
    let lt = config.lookup_table.index as int;
    let rows = pre.table.rows as int;
    &&& out.column == config.squared.index
    &&& out.row == 0
    &&& post.table.rows == pre.table.rows
    &&& post.table.advice@.len() == pre.table.advice@.len()
    &&& forall|j: int|
        0 <= j < pre.table.advice@.len() && j != c && j != d ==> #[trigger] post.table.advice@[j]
            == pre.table.advice@[j]
    &&& post.table.advice@[c]@.len() == pre.table.advice@[c]@.len()
    &&& post.table.advice@[c]@[0] == root
    &&& forall|r: int|
        1 <= r < rows ==> (#[trigger] post.table.advice@[c]@[r]).as_opt() == Some(0int)
    &&& post.table.advice@[d]@.len() == pre.table.advice@[d]@.len()
    &&& post.table.advice@[d]@[0].as_opt() == opt_mul(root.as_opt(), root.as_opt())
    &&& forall|r: int|
        1 <= r < pre.table.advice@[d]@.len() ==> #[trigger] post.table.advice@[d]@[r]
            == pre.table.advice@[d]@[r]
    &&& post.table.selectors@.len() == pre.table.selectors@.len()
    &&& forall|j: int|
        0 <= j < pre.table.selectors@.len() && j != s ==> #[trigger] post.table.selectors@[j]
            == pre.table.selectors@[j]
    &&& post.table.selectors@[s]@ == pre.table.selectors@[s]@.update(0, true)
    &&& post.table.tables@.len() == pre.table.tables@.len()
    &&& forall|j: int|
        0 <= j < pre.table.tables@.len() && j != lt ==> #[trigger] post.table.tables@[j]
            == pre.table.tables@[j]
    &&& post.table.tables@[lt]@.len() == pre.table.tables@[lt]@.len()
    &&& forall|r: int|
        0 <= r < 11 ==> #[trigger] crate::casino::casino2::table_val(post.table, lt, r) == Some(r)
    &&& forall|r: int|
        11 <= r < pre.table.tables@[lt]@.len() ==> #[trigger] post.table.tables@[lt]@[r]
            == pre.table.tables@[lt]@[r]
    &&& post.table.advice_eq@ == pre.table.advice_eq@
    &&& post.table.instance_eq@ == pre.table.instance_eq@
    &&& post.table.copies@ == pre.table.copies@
    &&& post.table.bindings@ == pre.table.bindings@.push(
        InstanceBinding { cell: out, column: config.instance.index, row: 0 },
    )
}

impl SquareRootCircuit {
    /// Registers the columns, a gate `input * input - squared = 0`, and
    /// a lookup binding every root-column row to the range table.
    pub fn configure(cs: &mut ConstraintSystem) -> (r: Result<SquareRootConfig, Error>)
        requires
            old(cs).wf(),
        ensures
            final(cs).wf(),
            (old(cs).num_selectors < usize::MAX && old(cs).num_table_columns < usize::MAX)
                ==> r is Ok,
            r matches Ok(config) ==> configured(*old(cs), *final(cs), config)
                && config.input.index != config.squared.index,
    {
        let input = cs.advice_column();
        let squared = cs.advice_column();
        let instance = cs.instance_column();
        cs.enable_equality(input)?;
        cs.enable_equality(squared)?;
        cs.enable_instance_equality(instance)?;
        if cs.num_selectors == usize::MAX || cs.num_table_columns == usize::MAX {
            return Err(Error::SizeTooLarge);
        }
        let myselector = cs.selector();
        let mut polys: Vec<Expression> = Vec::new();
        polys.push(
            Expression::advice(input, 0).mul(Expression::advice(input, 0)).sub(
                Expression::advice(squared, 0),
            ),
        );
        proof {
            let na = cs.num_advice();
            let ni = cs.num_instance();
            let ns = cs.num_selectors as int;
            let c = input.index;
            let d = squared.index;
            assert(expr_wf(Expression::Advice { column: c, rotation: 0 }, na, ni, ns));
            assert(expr_wf(Expression::Advice { column: d, rotation: 0 }, na, ni, ns));
            assert(expr_wf(
                Expression::Product(
                    Box::new(Expression::Advice { column: c, rotation: 0 }),
                    Box::new(Expression::Advice { column: c, rotation: 0 }),
                ),
                na,
                ni,
                ns,
            ));
            assert(expr_wf(
                Expression::Negate(Box::new(Expression::Advice { column: d, rotation: 0 })),
                na,
                ni,
                ns,
            ));
            assert(expr_wf(square_row_poly(c, d), na, ni, ns));
        }
        cs.create_gate(String::from_str("square"), myselector, polys)?;
        let lookup_table = cs.lookup_table_column();
        cs.lookup(
            String::from_str("range check"),
            Expression::advice(input, 0),
            lookup_table,
        )?;
        Ok(SquareRootConfig { input, squared, instance, myselector, lookup_table })
    }

    /// Populates the range table with `0 ..= 10`, writes the root and its
    /// square, pads the unused root rows with zero, and binds the square
    /// to the public input.
    #[verifier::loop_isolation(false)]
    pub fn synthesize(&self, config: &SquareRootConfig, asn: &mut Assigner) -> (r: Result<
        Cell,
        Error,
    >)
        requires
            old(asn).wf(),
        ensures
            final(asn).wf(),
            ((config.input.index as int) < old(asn).table.num_advice() && (
            config.squared.index as int) < old(asn).table.num_advice() && old(
                asn,
            ).table.advice_eq@[config.squared.index as int] && (config.instance.index as int)
                < old(asn).table.num_instance() && old(
                asn,
            ).table.instance_eq@[config.instance.index as int] && config.myselector.index < old(
                asn,
            ).table.selectors@.len() && config.lookup_table.index < old(asn).table.tables@.len()
                && config.input.index != config.squared.index && old(asn).offset == 0 && old(
                asn,
            ).used == 0 && 11 <= old(asn).table.rows && (forall|r: int|
                0 <= r < 11 ==> (#[trigger] old(
                    asn,
                ).table.tables@[config.lookup_table.index as int]@[r]) is None)) ==> r is Ok,
            (config.input.index != config.squared.index && old(asn).offset == 0 && old(asn).used
                == 0) ==> (r matches Ok(out) ==> synthesized(
                *old(asn),
                *final(asn),
                *config,
                self.root,
                out,
            )),
    {
        let ghost lt = config.lookup_table.index as int;
        let mut row: usize = 0;
        while row < 11
            invariant
                asn.wf(),
                row <= 11,
                row <= old(asn).table.rows,
                row > 0 ==> lt < old(asn).table.tables@.len(),
                asn.offset == old(asn).offset,
                asn.used == old(asn).used,
                asn.table.rows == old(asn).table.rows,
                asn.table.advice@ == old(asn).table.advice@,
                asn.table.selectors@ == old(asn).table.selectors@,
                asn.table.advice_eq@ == old(asn).table.advice_eq@,
                asn.table.instance_eq@ == old(asn).table.instance_eq@,
                asn.table.copies@ == old(asn).table.copies@,
                asn.table.bindings@ == old(asn).table.bindings@,
                asn.table.tables@.len() == old(asn).table.tables@.len(),
                forall|j: int|
                    0 <= j < old(asn).table.tables@.len() && j != lt
                        ==> #[trigger] asn.table.tables@[j] == old(asn).table.tables@[j],
                lt < old(asn).table.tables@.len() ==> asn.table.tables@[lt]@.len() == old(
                    asn,
                ).table.tables@[lt]@.len(),
                forall|r: int|
                    0 <= r < row ==> #[trigger] crate::casino::casino2::table_val(
                        asn.table,
                        lt,
                        r,
                    ) == Some(r),
                forall|r: int|
                    row <= r < old(asn).table.tables@[lt]@.len()
                        ==> #[trigger] asn.table.tables@[lt]@[r] == old(asn).table.tables@[lt]@[r],
            decreases 11 - row,
        {
            proof {
                vstd::arithmetic::div_mod::lemma_small_mod(row as nat, MODULUS as nat);
            }
            let ghost head = *asn;
            match asn.assign_table_cell(
                config.lookup_table,
                row,
                FieldElement::from_u64(row as u64),
            ) {
                Ok(()) => {},
                Err(e) => {
                    proof {
                        if (config.lookup_table.index as int) < old(asn).table.tables@.len() && 11
                            <= old(asn).table.rows && (forall|r: int|
                            0 <= r < 11 ==> (#[trigger] old(
                                asn,
                            ).table.tables@[config.lookup_table.index as int]@[r]) is None) {
                            assert(asn.table.tables@[lt]@[row as int] == old(
                                asn,
                            ).table.tables@[lt]@[row as int]);
                            assert(false);
                        }
                    }
                    return Err(e);
                },
            }
            proof {
                assert((row as u64) as int % (MODULUS as int) == row as int);
                assert(asn.table.tables@[lt]@ == head.table.tables@[lt]@.update(
                    row as int,
                    asn.table.tables@[lt]@[row as int],
                ));
                assert forall|r: int|
                    0 <= r < row + 1 implies #[trigger] crate::casino::casino2::table_val(
                    asn.table,
                    lt,
                    r,
                ) == Some(r) by {
                    if r < row {
                        assert(head.table.tables@[lt]@.len() == head.table.rows);
                        assert(asn.table.tables@[lt]@[r] == head.table.tables@[lt]@[r]);
                        assert(crate::casino::casino2::table_val(head.table, lt, r) == Some(r));
                    }
                }
            }
            row = row + 1;
        }

        let ghost filled = *asn;
        asn.begin_region();
        asn.enable_selector(config.myselector, 0)?;
        asn.assign_advice(config.input, 0, self.root)?;
        let out = asn.assign_advice(config.squared, 0, self.root.mul(self.root))?;
        asn.constrain_instance(out, config.instance, 0)?;

        // Pad the rest of the root column so the lookup, which checks
        // every row, finds an in-table value everywhere.
        let ghost mid = *asn;
        let ghost c = config.input.index as int;
        let mut rel: usize = 1;
        let rows = asn.table.rows;
        while rel < rows
            invariant
                asn.wf(),
                c == config.input.index as int,
                1 <= rel,
                c < asn.table.advice@.len(),
                asn.offset == mid.offset,
                asn.table.rows == mid.table.rows,
                rows == asn.table.rows,
                asn.table.advice@.len() == mid.table.advice@.len(),
                forall|j: int|
                    0 <= j < mid.table.advice@.len() && j != c ==> #[trigger] asn.table.advice@[j]
                        == mid.table.advice@[j],
                asn.table.advice@[c]@.len() == mid.table.advice@[c]@.len(),
                forall|r: int|
                    0 <= r < mid.table.advice@[c]@.len() && !(mid.offset + 1 <= r < mid.offset
                        + rel) ==> #[trigger] asn.table.advice@[c]@[r] == mid.table.advice@[c]@[r],
                forall|r: int|
                    mid.offset + 1 <= r < mid.offset + rel && r < mid.table.advice@[c]@.len() ==> (
                    #[trigger] asn.table.advice@[c]@[r]).as_opt() == Some(0int),
                asn.table.selectors@ == mid.table.selectors@,
                asn.table.tables@ == mid.table.tables@,
                asn.table.advice_eq@ == mid.table.advice_eq@,
                asn.table.instance_eq@ == mid.table.instance_eq@,
                asn.table.copies@ == mid.table.copies@,
                asn.table.bindings@ == mid.table.bindings@,
            decreases rows - rel,
        {
            asn.assign_advice(config.input, rel, Value::known(FieldElement::zero()))?;
            rel = rel + 1;
        }
        proof {
            if config.input.index != config.squared.index && old(asn).offset == 0 && old(
                asn,
            ).used == 0 {
                let d = config.squared.index as int;
                let ltg = config.lookup_table.index as int;
                assert(mid.offset == 0);
                assert(rel >= rows);
                assert(asn.table.advice@[c]@[0] == self.root) by {
                    assert(mid.table.advice@[c]@[0] == self.root);
                }
                assert forall|r: int|
                    1 <= r < old(asn).table.rows implies (
                #[trigger] asn.table.advice@[c]@[r]).as_opt() == Some(0int) by {
                    assert(mid.offset + 1 <= r < mid.offset + rel);
                    assert(mid.table.advice@[c]@.len() == mid.table.rows);
                }
                assert(asn.table.advice@[d]@[0].as_opt() == opt_mul(
                    self.root.as_opt(),
                    self.root.as_opt(),
                )) by {
                    assert(mid.table.advice@[d]@[0].as_opt() == opt_mul(
                        self.root.as_opt(),
                        self.root.as_opt(),
                    ));
                }
                assert forall|r: int|
                    1 <= r < old(asn).table.advice@[d]@.len()
                    implies #[trigger] asn.table.advice@[d]@[r] == old(
                    asn,
                ).table.advice@[d]@[r] by {
                    assert(asn.table.advice@[d] == mid.table.advice@[d]);
                    assert(mid.table.advice@[d]@[r] == old(asn).table.advice@[d]@[r]);
                }
                assert forall|r: int|
                    0 <= r < 11 implies #[trigger] crate::casino::casino2::table_val(
                    asn.table,
                    ltg,
                    r,
                ) == Some(r) by {
                    assert(asn.table.tables@ == filled.table.tables@);
                    assert(crate::casino::casino2::table_val(filled.table, ltg, r) == Some(r));
                }
            }
        }
        Ok(out)
    }
}

} // verus!
