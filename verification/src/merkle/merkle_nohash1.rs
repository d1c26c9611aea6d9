//! Merkle path, gated variant: a boolean check on the path bit, a swap
//! gate, and a combination gate `left + right = digest` on each layer's
//! second row.

use vstd::prelude::*;
use vstd::string::StringExecFns;

use crate::assign::Assigner;
use crate::assign::CopyPair;
use crate::assign::InstanceBinding;
use crate::error::Error;
use crate::expression::expr_wf;
use crate::expression::Expression;
use crate::field::FieldElement;
use crate::layout::AdviceColumn;
use crate::layout::Cell;
use crate::layout::InstanceColumn;
use crate::layout::Selector;
use crate::system::ConstraintSystem;
use crate::value::opt_add;
use crate::value::Value;

verus! {

/// Three advice columns (running node, neighbor, path bit / digest), the
/// public root, and the three gate selectors.
#[derive(Clone, Copy, Debug)]
pub struct MerkleConfig {
    pub left: AdviceColumn,
    pub right: AdviceColumn,
    pub bit: AdviceColumn,
    pub swap_selector: Selector,
    pub swap_bit_bool_selector: Selector,
    pub hash_selector: Selector,
    pub root_hash: InstanceColumn,
}

/// The leaf and the path up the tree: one neighbor and one 0/1 bit per
/// layer, the bit saying whether the running node sits right.
pub struct MerkleCircuitNoHash1 {
    pub leaf: Value,
    pub path_elements: Vec<Value>,
    pub path_indices: Vec<Value>,
}

/// The boolean gate's polynomial: `bit * (one - bit)`, for the constant
/// `one`.
pub open spec fn bool_gate_poly(bt: usize, one: FieldElement) -> Expression {
    Expression::Product(
        Box::new(Expression::Advice { column: bt, rotation: 0 }),
        Box::new(
            Expression::Sum(
                Box::new(Expression::Constant(one)),
                Box::new(
                    Expression::Negate(Box::new(Expression::Advice { column: bt, rotation: 0 })),
                ),
            ),
        ),
    )
}

/// The first swap polynomial:
/// `(right - left) * bit + left - left[next]`.
pub open spec fn swap_poly_left(l: usize, rt: usize, bt: usize) -> Expression {
    Expression::Sum(
        Box::new(
            Expression::Sum(
                Box::new(
                    Expression::Product(
                        Box::new(
                            Expression::Sum(
                                Box::new(Expression::Advice { column: rt, rotation: 0 }),
                                Box::new(
                                    Expression::Negate(
                                        Box::new(Expression::Advice { column: l, rotation: 0 }),
                                    ),
                                ),
                            ),
                        ),
                        Box::new(Expression::Advice { column: bt, rotation: 0 }),
                    ),
                ),
                Box::new(Expression::Advice { column: l, rotation: 0 }),
            ),
        ),
        Box::new(Expression::Negate(Box::new(Expression::Advice { column: l, rotation: 1 }))),
    )
}

/// The second swap polynomial:
/// `(left - right) * bit + right - right[next]`.
pub open spec fn swap_poly_right(l: usize, rt: usize, bt: usize) -> Expression {
    Expression::Sum(
        Box::new(
            Expression::Sum(
                Box::new(
                    Expression::Product(
                        Box::new(
                            Expression::Sum(
                                Box::new(Expression::Advice { column: l, rotation: 0 }),
                                Box::new(
                                    Expression::Negate(
                                        Box::new(Expression::Advice { column: rt, rotation: 0 }),
                                    ),
                                ),
                            ),
                        ),
                        Box::new(Expression::Advice { column: bt, rotation: 0 }),
                    ),
                ),
                Box::new(Expression::Advice { column: rt, rotation: 0 }),
            ),
        ),
        Box::new(Expression::Negate(Box::new(Expression::Advice { column: rt, rotation: 1 }))),
    )
}

/// The combination gate's polynomial: `left + right - digest`, all on the
/// current row.
pub open spec fn hash_gate_poly(l: usize, rt: usize, bt: usize) -> Expression {
    Expression::Sum(
        Box::new(
            Expression::Sum(
                Box::new(Expression::Advice { column: l, rotation: 0 }),
                Box::new(Expression::Advice { column: rt, rotation: 0 }),
            ),
        ),
        Box::new(Expression::Negate(Box::new(Expression::Advice { column: bt, rotation: 0 }))),
    )
}

/// What [`configure_merkle`] does to the constraint system: three fresh
/// equality-enabled advice columns, a fresh equality-enabled instance
/// column, three fresh selectors, the boolean gate, the swap gate, and —
/// when `with_hash_gate` — the combination gate.
pub open spec fn merkle_configured(
    pre: ConstraintSystem,
    post: ConstraintSystem,
    config: MerkleConfig,
    with_hash_gate: bool,
) -> bool {
    let l = config.left.index;
    let rt = config.right.index;
    let bt = config.bit.index;
    let base = pre.gates@.len() as int;
    &&& (l as int) == pre.num_advice()
    &&& (rt as int) == pre.num_advice() + 1
    &&& (bt as int) == pre.num_advice() + 2
    &&& (config.root_hash.index as int) == pre.num_instance()
    &&& config.swap_selector.index == pre.num_selectors
    &&& (config.swap_bit_bool_selector.index as int) == pre.num_selectors + 1
    &&& (config.hash_selector.index as int) == pre.num_selectors + 2
    &&& post.advice_eq@ == pre.advice_eq@.push(false).push(false).push(false).update(
        l as int,
        true,
    ).update(rt as int, true).update(bt as int, true)
    &&& post.instance_eq@ == pre.instance_eq@.push(false).update(
        config.root_hash.index as int,
        true,
    )
    &&& post.num_table_columns == pre.num_table_columns
    &&& (post.num_selectors as int) == pre.num_selectors + 3
    &&& post.gates@.len() == base + (if with_hash_gate {
        3int
    } else {
        2int
    })
    &&& forall|g: int| 0 <= g < base ==> #[trigger] post.gates@[g] == pre.gates@[g]
    &&& post.gates@[base].selector == config.swap_bit_bool_selector.index
    &&& (exists|one: FieldElement|
        one.as_int() == 1 && post.gates@[base].polys@ =~= seq![
            #[trigger] bool_gate_poly(bt, one),
        ])
    &&& post.gates@[base].name@ == "bool constraint"@
    &&& post.gates@[base + 1].selector == config.swap_selector.index
    &&& post.gates@[base + 1].polys@ =~= seq![
        swap_poly_left(l, rt, bt),
        swap_poly_right(l, rt, bt),
    ]
    &&& post.gates@[base + 1].name@ == "swap constraint"@
    &&& (with_hash_gate ==> post.gates@[base + 2].selector == config.hash_selector.index)
    &&& (with_hash_gate ==> post.gates@[base + 2].polys@ =~= seq![hash_gate_poly(l, rt, bt)])
    &&& (with_hash_gate ==> post.gates@[base + 2].name@ == "root hash constraint"@)
    &&& post.lookups@ == pre.lookups@
}

/// The Merkle columns and selectors are pairwise distinct, as
/// [`configure_merkle`] makes them.
pub open spec fn merkle_distinct(config: MerkleConfig) -> bool {
    &&& config.left.index != config.right.index
    &&& config.left.index != config.bit.index
    &&& config.right.index != config.bit.index
    &&& config.swap_selector.index != config.swap_bit_bool_selector.index
    &&& config.swap_selector.index != config.hash_selector.index
    &&& config.swap_bit_bool_selector.index != config.hash_selector.index
}

/// Registers the three-column Merkle shape shared by both variants,
/// `with_hash_gate` selecting whether the combination gate exists.
pub fn configure_merkle(cs: &mut ConstraintSystem, with_hash_gate: bool) -> (r: Result<
    MerkleConfig,
    Error,
>)
    requires
        old(cs).wf(),
    ensures
        final(cs).wf(),
        (old(cs).num_selectors as int) + 3 < usize::MAX ==> r is Ok,
        r matches Ok(config) ==> merkle_configured(*old(cs), *final(cs), config, with_hash_gate)
            && merkle_distinct(config),
{
    let left = cs.advice_column();
    let right = cs.advice_column();
    let bit = cs.advice_column();
    cs.enable_equality(left)?;
    cs.enable_equality(right)?;
    cs.enable_equality(bit)?;
    let root_hash = cs.instance_column();
    cs.enable_instance_equality(root_hash)?;

    if cs.num_selectors >= usize::MAX - 3 {
        return Err(Error::SizeTooLarge);
    }
    let swap_selector = cs.selector();
    let swap_bit_bool_selector = cs.selector();
    let hash_selector = cs.selector();

    let one = FieldElement::from_u64(1);
    proof {
        let na = cs.num_advice();
        let ni = cs.num_instance();
        let ns = cs.num_selectors as int;
        let l = left.index;
        let rt = right.index;
        let bt = bit.index;
        assert(expr_wf(Expression::Advice { column: l, rotation: 0 }, na, ni, ns));
        assert(expr_wf(Expression::Advice { column: l, rotation: 1 }, na, ni, ns));
        assert(expr_wf(Expression::Advice { column: rt, rotation: 0 }, na, ni, ns));
        assert(expr_wf(Expression::Advice { column: rt, rotation: 1 }, na, ni, ns));
        assert(expr_wf(Expression::Advice { column: bt, rotation: 0 }, na, ni, ns));
        assert(expr_wf(Expression::Constant(one), na, ni, ns));
        assert(expr_wf(
            Expression::Negate(Box::new(Expression::Advice { column: bt, rotation: 0 })),
            na,
            ni,
            ns,
        ));
        assert(expr_wf(
            Expression::Sum(
                Box::new(Expression::Constant(one)),
                Box::new(
                    Expression::Negate(Box::new(Expression::Advice { column: bt, rotation: 0 })),
                ),
            ),
            na,
            ni,
            ns,
        ));
        assert(expr_wf(bool_gate_poly(bt, one), na, ni, ns));
        assert(expr_wf(
            Expression::Negate(Box::new(Expression::Advice { column: l, rotation: 0 })),
            na,
            ni,
            ns,
        ));
        assert(expr_wf(
            Expression::Negate(Box::new(Expression::Advice { column: rt, rotation: 0 })),
            na,
            ni,
            ns,
        ));
        assert(expr_wf(
            Expression::Sum(
                Box::new(Expression::Advice { column: rt, rotation: 0 }),
                Box::new(
                    Expression::Negate(Box::new(Expression::Advice { column: l, rotation: 0 })),
                ),
            ),
            na,
            ni,
            ns,
        ));
        assert(expr_wf(
            Expression::Product(
                Box::new(
                    Expression::Sum(
                        Box::new(Expression::Advice { column: rt, rotation: 0 }),
                        Box::new(
                            Expression::Negate(
                                Box::new(Expression::Advice { column: l, rotation: 0 }),
                            ),
                        ),
                    ),
                ),
                Box::new(Expression::Advice { column: bt, rotation: 0 }),
            ),
            na,
            ni,
            ns,
        ));
        assert(expr_wf(
            Expression::Sum(
                Box::new(
                    Expression::Product(
                        Box::new(
                            Expression::Sum(
                                Box::new(Expression::Advice { column: rt, rotation: 0 }),
                                Box::new(
                                    Expression::Negate(
                                        Box::new(Expression::Advice { column: l, rotation: 0 }),
                                    ),
                                ),
                            ),
                        ),
                        Box::new(Expression::Advice { column: bt, rotation: 0 }),
                    ),
                ),
                Box::new(Expression::Advice { column: l, rotation: 0 }),
            ),
            na,
            ni,
            ns,
        ));
        assert(expr_wf(
            Expression::Negate(Box::new(Expression::Advice { column: l, rotation: 1 })),
            na,
            ni,
            ns,
        ));
        assert(expr_wf(swap_poly_left(l, rt, bt), na, ni, ns));
        assert(expr_wf(
            Expression::Sum(
                Box::new(Expression::Advice { column: l, rotation: 0 }),
                Box::new(
                    Expression::Negate(Box::new(Expression::Advice { column: rt, rotation: 0 })),
                ),
            ),
            na,
            ni,
            ns,
        ));
        assert(expr_wf(
            Expression::Product(
                Box::new(
                    Expression::Sum(
                        Box::new(Expression::Advice { column: l, rotation: 0 }),
                        Box::new(
                            Expression::Negate(
                                Box::new(Expression::Advice { column: rt, rotation: 0 }),
                            ),
                        ),
                    ),
                ),
                Box::new(Expression::Advice { column: bt, rotation: 0 }),
            ),
            na,
            ni,
            ns,
        ));
        assert(expr_wf(
            Expression::Sum(
                Box::new(
                    Expression::Product(
                        Box::new(
                            Expression::Sum(
                                Box::new(Expression::Advice { column: l, rotation: 0 }),
                                Box::new(
                                    Expression::Negate(
                                        Box::new(Expression::Advice { column: rt, rotation: 0 }),
                                    ),
                                ),
                            ),
                        ),
                        Box::new(Expression::Advice { column: bt, rotation: 0 }),
                    ),
                ),
                Box::new(Expression::Advice { column: rt, rotation: 0 }),
            ),
            na,
            ni,
            ns,
        ));
        assert(expr_wf(
            Expression::Negate(Box::new(Expression::Advice { column: rt, rotation: 1 })),
            na,
            ni,
            ns,
        ));
        assert(expr_wf(swap_poly_right(l, rt, bt), na, ni, ns));
        assert(expr_wf(
            Expression::Sum(
                Box::new(Expression::Advice { column: l, rotation: 0 }),
                Box::new(Expression::Advice { column: rt, rotation: 0 }),
            ),
            na,
            ni,
            ns,
        ));
        assert(expr_wf(hash_gate_poly(l, rt, bt), na, ni, ns));
    }

    // The path bit must be boolean: bit * (1 - bit) = 0.
    let mut bool_polys: Vec<Expression> = Vec::new();
    bool_polys.push(
        Expression::advice(bit, 0).mul(
            Expression::constant(one).sub(Expression::advice(bit, 0)),
        ),
    );
    cs.create_gate(String::from_str("bool constraint"), swap_bit_bool_selector, bool_polys)?;

    // The next row holds this row's node and neighbor, swapped when the
    // bit is 1.
    let mut swap_polys: Vec<Expression> = Vec::new();
    swap_polys.push(
        Expression::advice(right, 0).sub(Expression::advice(left, 0)).mul(
            Expression::advice(bit, 0),
        ).add(Expression::advice(left, 0)).sub(Expression::advice(left, 1)),
    );
    swap_polys.push(
        Expression::advice(left, 0).sub(Expression::advice(right, 0)).mul(
            Expression::advice(bit, 0),
        ).add(Expression::advice(right, 0)).sub(Expression::advice(right, 1)),
    );
    cs.create_gate(String::from_str("swap constraint"), swap_selector, swap_polys)?;

    if with_hash_gate {
        // The digest is the combination of the swapped pair.
        let mut hash_polys: Vec<Expression> = Vec::new();
        hash_polys.push(
            Expression::advice(left, 0).add(Expression::advice(right, 0)).sub(
                Expression::advice(bit, 0),
            ),
        );
        cs.create_gate(String::from_str("root hash constraint"), hash_selector, hash_polys)?;
    }

    Ok(MerkleConfig {
        left,
        right,
        bit,
        swap_selector,
        swap_bit_bool_selector,
        hash_selector,
        root_hash,
    })
}

/// The swapped pair for one layer: the bit 0 keeps the order, any other
/// known bit swaps it, and an `Unknown` bit poisons both sides.
pub open spec fn spec_swap_pair(node: Value, neighbor: Value, bit: Value) -> (Value, Value) {
    match bit {
        Value::Known(f) => if f.as_int() == 0 {
            (node, neighbor)
        } else {
            (neighbor, node)
        },
        Value::Unknown => (Value::Unknown, Value::Unknown),
    }
}

/// The swapped pair for one layer: `Unknown` path bits poison both sides.
pub fn swap_pair(node: Value, neighbor: Value, bit: Value) -> (r: (Value, Value))
    ensures
        r == spec_swap_pair(node, neighbor, bit),
{
    match bit {
        Value::Known(f) => {
            if f.to_u64() == 0 {
                (node, neighbor)
            } else {
                (neighbor, node)
            }
        },
        Value::Unknown => (Value::Unknown, Value::Unknown),
    }
}

/// What a Merkle layer does to the assigner, for a non-aliased config:
/// the running node is copied into the left column (with the copy
/// recorded), the neighbor and the bit sit beside it, the swapped pair
/// sits on the next row, their combination is the new digest, and the
/// layer's selectors are on — `with_hash` selecting whether the
/// combination row's selector is enabled.
pub open spec fn layer_synthesized(
    pre: Assigner,
    post: Assigner,
    config: MerkleConfig,
    node: Cell,
    node_val: Value,
    neighbor: Value,
    bit: Value,
    out: Cell,
    with_hash: bool,
) -> bool {
    let o = pre.offset + pre.used;
    let l = config.left.index as int;
    let rt = config.right.index as int;
    let bt = config.bit.index as int;
    let lv = spec_swap_pair(node_val, neighbor, bit).0;
    let rv = spec_swap_pair(node_val, neighbor, bit).1;
    &&& out.column == config.bit.index
    &&& out.row as int == o + 1
    &&& post.offset == o
    &&& post.used == 2
    &&& post.table.rows == pre.table.rows
    &&& post.table.advice@.len() == pre.table.advice@.len()
    &&& forall|j: int|
        0 <= j < pre.table.advice@.len() && j != l && j != rt && j != bt
            ==> #[trigger] post.table.advice@[j] == pre.table.advice@[j]
    &&& post.table.advice@[l]@ == pre.table.advice@[l]@.update(
        o,
        pre.table.advice@[node.column as int]@[node.row as int],
    ).update(o + 1, lv)
    &&& post.table.advice@[rt]@ == pre.table.advice@[rt]@.update(o, neighbor).update(o + 1, rv)
    &&& post.table.advice@[bt]@ == pre.table.advice@[bt]@.update(o, bit).update(
        o + 1,
        post.table.advice@[bt]@[o + 1],
    )
    &&& post.table.advice@[bt]@[o + 1].as_opt() == opt_add(lv.as_opt(), rv.as_opt())
    &&& post.table.selectors@.len() == pre.table.selectors@.len()
    &&& forall|j: int|
        0 <= j < pre.table.selectors@.len() && j != config.swap_selector.index as int && j
            != config.swap_bit_bool_selector.index as int && j
            != config.hash_selector.index as int ==> #[trigger] post.table.selectors@[j]
            == pre.table.selectors@[j]
    &&& post.table.selectors@[config.swap_selector.index as int]@
        == pre.table.selectors@[config.swap_selector.index as int]@.update(o, true)
    &&& post.table.selectors@[config.swap_bit_bool_selector.index as int]@
        == pre.table.selectors@[config.swap_bit_bool_selector.index as int]@.update(o, true)
    &&& (with_hash ==> post.table.selectors@[config.hash_selector.index as int]@
        == pre.table.selectors@[config.hash_selector.index as int]@.update(o + 1, true))
    &&& (!with_hash ==> (config.hash_selector.index < pre.table.selectors@.len()
        ==> post.table.selectors@[config.hash_selector.index as int]@
        == pre.table.selectors@[config.hash_selector.index as int]@))
    &&& post.table.tables@ == pre.table.tables@
    &&& post.table.advice_eq@ == pre.table.advice_eq@
    &&& post.table.instance_eq@ == pre.table.instance_eq@
    &&& post.table.copies@ == pre.table.copies@.push(
        CopyPair { a: node, b: Cell { column: config.left.index, row: (out.row - 1) as usize } },
    )
    &&& post.table.bindings@ == pre.table.bindings@
}

impl MerkleCircuitNoHash1 {
    /// Registers the Merkle shape with its combination gate.
    pub fn configure(cs: &mut ConstraintSystem) -> (r: Result<MerkleConfig, Error>)
        requires
            old(cs).wf(),
        ensures
            final(cs).wf(),
            (old(cs).num_selectors as int) + 3 < usize::MAX ==> r is Ok,
            r matches Ok(config) ==> merkle_configured(*old(cs), *final(cs), config, true)
                && merkle_distinct(config),
    {
        configure_merkle(cs, true)
    }

    /// Proves one layer: copies the running node, writes the neighbor and
    /// the path bit, writes the swapped pair on the next row, and writes
    /// their combination as the new digest.
    pub fn merkle_prove_layer(
        &self,
        config: &MerkleConfig,
        asn: &mut Assigner,
        node: Cell,
        node_val: Value,
        neighbor: Value,
        bit: Value,
    ) -> (r: Result<(Cell, Value), Error>)
        requires
            old(asn).wf(),
        ensures
            final(asn).wf(),
            ({
                let o = old(asn).offset + old(asn).used;
                ((node.column as int) < old(asn).table.num_advice() && node.row < old(
                    asn,
                ).table.rows && old(asn).table.advice_eq@[node.column as int] && (
                config.left.index as int) < old(asn).table.num_advice() && (
                config.right.index as int) < old(asn).table.num_advice() && (
                config.bit.index as int) < old(asn).table.num_advice() && old(
                    asn,
                ).table.advice_eq@[config.left.index as int] && config.swap_selector.index < old(
                    asn,
                ).table.selectors@.len() && config.swap_bit_bool_selector.index < old(
                    asn,
                ).table.selectors@.len() && config.hash_selector.index < old(asn).table.selectors@.len()
                    && o + 2 <= old(asn).table.rows)
                    ==> r is Ok
            }),
            r is Ok ==> {
                &&& final(asn).offset == old(asn).offset + old(asn).used
                &&& final(asn).used == 2
                &&& final(asn).table.rows == old(asn).table.rows
                &&& final(asn).table.advice@.len() == old(asn).table.advice@.len()
                &&& final(asn).table.selectors@.len() == old(asn).table.selectors@.len()
                &&& final(asn).table.tables@ == old(asn).table.tables@
                &&& final(asn).table.advice_eq@ == old(asn).table.advice_eq@
                &&& final(asn).table.instance_eq@ == old(asn).table.instance_eq@
                &&& final(asn).table.copies@.len() == old(asn).table.copies@.len() + 1
                &&& final(asn).table.bindings@ == old(asn).table.bindings@
            },
            merkle_distinct(*config) ==> (r matches Ok(out) ==> layer_synthesized(
                *old(asn),
                *final(asn),
                *config,
                node,
                node_val,
                neighbor,
                bit,
                out.0,
                true,
            ) && out.1.as_opt() == opt_add(
                spec_swap_pair(node_val, neighbor, bit).0.as_opt(),
                spec_swap_pair(node_val, neighbor, bit).1.as_opt(),
            )),
    {
        asn.begin_region();
        asn.enable_selector(config.swap_selector, 0)?;
        asn.enable_selector(config.swap_bit_bool_selector, 0)?;
        asn.enable_selector(config.hash_selector, 1)?;

        asn.copy_advice(node, config.left, 0)?;
        asn.assign_advice(config.right, 0, neighbor)?;
        asn.assign_advice(config.bit, 0, bit)?;

        let (lv, rv) = swap_pair(node_val, neighbor, bit);
        asn.assign_advice(config.left, 1, lv)?;
        asn.assign_advice(config.right, 1, rv)?;
        let digest = lv.add(rv);
        let cell = asn.assign_advice(config.bit, 1, digest)?;
        Ok((cell, digest))
    }

    /// Places the leaf, proves each layer in turn, and binds the final
    /// digest to the public root.  One copy constraint is recorded per
    /// layer and exactly one instance binding overall.
    pub fn synthesize(&self, config: &MerkleConfig, asn: &mut Assigner) -> (r: Result<Cell, Error>)
        requires
            old(asn).wf(),
        ensures
            final(asn).wf(),
            ({
                let o = old(asn).offset + old(asn).used;
                (self.path_elements@.len() == self.path_indices@.len() && merkle_distinct(
                    *config,
                ) && (config.left.index as int) < old(asn).table.num_advice() && (
                config.right.index as int) < old(asn).table.num_advice() && (
                config.bit.index as int) < old(asn).table.num_advice() && old(
                    asn,
                ).table.advice_eq@[config.left.index as int] && old(
                    asn,
                ).table.advice_eq@[config.bit.index as int] && config.swap_selector.index < old(
                    asn,
                ).table.selectors@.len() && config.swap_bit_bool_selector.index < old(
                    asn,
                ).table.selectors@.len() && config.hash_selector.index < old(asn).table.selectors@.len()
                    && (config.root_hash.index as int) < old(
                    asn,
                ).table.num_instance() && old(
                    asn,
                ).table.instance_eq@[config.root_hash.index as int] && o + 1 + 2
                    * self.path_elements@.len() <= old(asn).table.rows) ==> r is Ok
            }),
            r matches Ok(out) ==> {
                &&& final(asn).table.bindings@ == old(asn).table.bindings@.push(
                    InstanceBinding { cell: out, column: config.root_hash.index, row: 0 },
                )
                &&& final(asn).table.copies@.len() == old(asn).table.copies@.len()
                    + self.path_elements@.len()
                &&& final(asn).table.rows == old(asn).table.rows
                &&& final(asn).table.advice@.len() == old(asn).table.advice@.len()
                &&& final(asn).table.selectors@.len() == old(asn).table.selectors@.len()
                &&& final(asn).table.tables@ == old(asn).table.tables@
                &&& final(asn).table.advice_eq@ == old(asn).table.advice_eq@
                &&& final(asn).table.instance_eq@ == old(asn).table.instance_eq@
                &&& (merkle_distinct(*config) && self.path_elements@.len() > 0 ==> out.column
                    == config.bit.index)
                &&& (self.path_elements@.len() == 0 ==> out.column == config.left.index)
                &&& (self.path_elements@.len() == 0 ==> {
                    let o = old(asn).offset + old(asn).used;
                    &&& out.row as int == o
                    &&& final(asn).table.selectors@ == old(asn).table.selectors@
                    &&& forall|j: int|
                        0 <= j < old(asn).table.advice@.len() && j != config.left.index as int
                            ==> #[trigger] final(asn).table.advice@[j] == old(
                            asn,
                        ).table.advice@[j]
                    &&& ((config.left.index as int) < old(asn).table.advice@.len()
                        ==> final(asn).table.advice@[config.left.index as int]@ == old(
                        asn,
                    ).table.advice@[config.left.index as int]@.update(o, self.leaf))
                })
            },
    {
        if self.path_elements.len() != self.path_indices.len() {
            return Err(Error::ShapeMismatch);
        }
        asn.begin_region();
        let mut digest = asn.assign_advice(config.left, 0, self.leaf)?;
        let mut digest_val = self.leaf;
        let mut i: usize = 0;
        while i < self.path_elements.len()
            invariant
                asn.wf(),
                i <= self.path_elements@.len(),
                self.path_elements@.len() == self.path_indices@.len(),
                asn.table.rows == old(asn).table.rows,
                asn.table.advice@.len() == old(asn).table.advice@.len(),
                asn.table.selectors@.len() == old(asn).table.selectors@.len(),
                asn.table.tables@ == old(asn).table.tables@,
                asn.table.advice_eq@ == old(asn).table.advice_eq@,
                asn.table.instance_eq@ == old(asn).table.instance_eq@,
                asn.table.copies@.len() == old(asn).table.copies@.len() + i,
                asn.table.bindings@ == old(asn).table.bindings@,
                (merkle_distinct(*config) && i > 0) ==> digest.column == config.bit.index,
                i == 0 ==> digest.column == config.left.index,
                merkle_distinct(*config) ==> asn.offset + asn.used == old(asn).offset + old(
                    asn,
                ).used + 1 + 2 * i,
                merkle_distinct(*config) ==> digest.row as int == asn.offset + asn.used - 1,
                merkle_distinct(*config) ==> digest.row < asn.table.rows,
                self.path_elements@.len() == 0 ==> {
                    let o = old(asn).offset + old(asn).used;
                    &&& digest.row as int == o
                    &&& asn.table.selectors@ == old(asn).table.selectors@
                    &&& forall|j: int|
                        0 <= j < old(asn).table.advice@.len() && j != config.left.index as int
                            ==> #[trigger] asn.table.advice@[j] == old(asn).table.advice@[j]
                    &&& ((config.left.index as int) < old(asn).table.advice@.len())
                    &&& asn.table.advice@[config.left.index as int]@ == old(
                        asn,
                    ).table.advice@[config.left.index as int]@.update(o, self.leaf)
                },
            decreases self.path_elements@.len() - i,
        {
            let (cell, value) = self.merkle_prove_layer(
                config,
                asn,
                digest,
                digest_val,
                self.path_elements[i],
                self.path_indices[i],
            )?;
            digest = cell;
            digest_val = value;
            i = i + 1;
        }
        asn.constrain_instance(digest, config.root_hash, 0)?;
        Ok(digest)
    }
}

} // verus!
