//! Merkle path, ungated variant: the boolean and swap gates remain, but
//! nothing constrains the combination written as the digest, so a
//! fabricated digest — and with it any root — passes.

use vstd::prelude::*;

use crate::assign::Assigner;
use crate::assign::InstanceBinding;
use crate::error::Error;
use crate::layout::Cell;
use crate::merkle::merkle_nohash1::configure_merkle;
use crate::merkle::merkle_nohash1::layer_synthesized;
use crate::merkle::merkle_nohash1::merkle_configured;
use crate::merkle::merkle_nohash1::merkle_distinct;
use crate::merkle::merkle_nohash1::spec_swap_pair;
use crate::merkle::merkle_nohash1::swap_pair;
use crate::merkle::merkle_nohash1::MerkleConfig;
use crate::system::ConstraintSystem;
use crate::value::opt_add;
use crate::value::Value;

verus! {

/// The leaf and the path up the tree, as in the first variant.
pub struct MerkleCircuitNoHash2 {
    pub leaf: Value,
    pub path_elements: Vec<Value>,
    pub path_indices: Vec<Value>,
}

impl MerkleCircuitNoHash2 {
    /// Registers the Merkle shape without the combination gate.
    pub fn configure(cs: &mut ConstraintSystem) -> (r: Result<MerkleConfig, Error>)
        requires
            old(cs).wf(),
        ensures
            final(cs).wf(),
            (old(cs).num_selectors as int) + 3 < usize::MAX ==> r is Ok,
            r matches Ok(config) ==> merkle_configured(*old(cs), *final(cs), config, false)
                && merkle_distinct(config),
    {
        configure_merkle(cs, false)
    }

    /// Proves one layer as the first variant does — but the digest cell
    /// it writes is not constrained by any gate.
    pub fn merkle_prove_layer(
        &self,
        config: &MerkleConfig,
        asn: &mut Assigner,
        node: Cell,
        node_val: Value,
        neighbor: Value,
        bit: Value,
    ) -> (r: Result<(Cell, Value), Error>)
        requires
            old(asn).wf(),
        ensures
            final(asn).wf(),
            ({
                let o = old(asn).offset + old(asn).used;
                ((node.column as int) < old(asn).table.num_advice() && node.row < old(
                    asn,
                ).table.rows && old(asn).table.advice_eq@[node.column as int] && (
                config.left.index as int) < old(asn).table.num_advice() && (
                config.right.index as int) < old(asn).table.num_advice() && (
                config.bit.index as int) < old(asn).table.num_advice() && old(
                    asn,
                ).table.advice_eq@[config.left.index as int] && config.swap_selector.index < old(
                    asn,
                ).table.selectors@.len() && config.swap_bit_bool_selector.index < old(
                    asn,
                ).table.selectors@.len() && o + 2 <= old(asn).table.rows)
                    ==> r is Ok
            }),
            r is Ok ==> {
                &&& final(asn).offset == old(asn).offset + old(asn).used
                &&& final(asn).used == 2
                &&& final(asn).table.rows == old(asn).table.rows
                &&& final(asn).table.advice@.len() == old(asn).table.advice@.len()
                &&& final(asn).table.selectors@.len() == old(asn).table.selectors@.len()
                &&& final(asn).table.tables@ == old(asn).table.tables@
                &&& final(asn).table.advice_eq@ == old(asn).table.advice_eq@
                &&& final(asn).table.instance_eq@ == old(asn).table.instance_eq@
                &&& final(asn).table.copies@.len() == old(asn).table.copies@.len() + 1
                &&& final(asn).table.bindings@ == old(asn).table.bindings@
            },
            merkle_distinct(*config) ==> (r matches Ok(out) ==> layer_synthesized(
                *old(asn),
                *final(asn),
                *config,
                node,
                node_val,
                neighbor,
                bit,
                out.0,
                false,
            ) && out.1.as_opt() == opt_add(
                spec_swap_pair(node_val, neighbor, bit).0.as_opt(),
                spec_swap_pair(node_val, neighbor, bit).1.as_opt(),
            )),
    {
        asn.begin_region();
        asn.enable_selector(config.swap_selector, 0)?;
        asn.enable_selector(config.swap_bit_bool_selector, 0)?;

        asn.copy_advice(node, config.left, 0)?;
        asn.assign_advice(config.right, 0, neighbor)?;
        asn.assign_advice(config.bit, 0, bit)?;

        let (lv, rv) = swap_pair(node_val, neighbor, bit);
        asn.assign_advice(config.left, 1, lv)?;
        asn.assign_advice(config.right, 1, rv)?;
        let digest = lv.add(rv);
        let cell = asn.assign_advice(config.bit, 1, digest)?;
        Ok((cell, digest))
    }

    /// Places the leaf, proves each layer in turn, and binds the final
    /// digest to the public root.  One copy constraint is recorded per
    /// layer and exactly one instance binding overall.
    pub fn synthesize(&self, config: &MerkleConfig, asn: &mut Assigner) -> (r: Result<Cell, Error>)
        requires
            old(asn).wf(),
        ensures
            final(asn).wf(),
            ({
                let o = old(asn).offset + old(asn).used;
                (self.path_elements@.len() == self.path_indices@.len() && merkle_distinct(
                    *config,
                ) && (config.left.index as int) < old(asn).table.num_advice() && (
                config.right.index as int) < old(asn).table.num_advice() && (
                config.bit.index as int) < old(asn).table.num_advice() && old(
                    asn,
                ).table.advice_eq@[config.left.index as int] && old(
                    asn,
                ).table.advice_eq@[config.bit.index as int] && config.swap_selector.index < old(
                    asn,
                ).table.selectors@.len() && config.swap_bit_bool_selector.index < old(
                    asn,
                ).table.selectors@.len() && (config.root_hash.index as int) < old(
                    asn,
                ).table.num_instance() && old(
                    asn,
                ).table.instance_eq@[config.root_hash.index as int] && o + 1 + 2
                    * self.path_elements@.len() <= old(asn).table.rows) ==> r is Ok
            }),
            r matches Ok(out) ==> {
                &&& final(asn).table.bindings@ == old(asn).table.bindings@.push(
                    InstanceBinding { cell: out, column: config.root_hash.index, row: 0 },
                )
                &&& final(asn).table.copies@.len() == old(asn).table.copies@.len()
                    + self.path_elements@.len()
                &&& final(asn).table.rows == old(asn).table.rows
                &&& final(asn).table.advice@.len() == old(asn).table.advice@.len()
                &&& final(asn).table.selectors@.len() == old(asn).table.selectors@.len()
                &&& final(asn).table.tables@ == old(asn).table.tables@
                &&& final(asn).table.advice_eq@ == old(asn).table.advice_eq@
                &&& final(asn).table.instance_eq@ == old(asn).table.instance_eq@
                &&& (merkle_distinct(*config) && self.path_elements@.len() > 0 ==> out.column
                    == config.bit.index)
                &&& (self.path_elements@.len() == 0 ==> out.column == config.left.index)
                &&& (self.path_elements@.len() == 0 ==> {
                    let o = old(asn).offset + old(asn).used;
                    &&& out.row as int == o
                    &&& final(asn).table.selectors@ == old(asn).table.selectors@
                    &&& forall|j: int|
                        0 <= j < old(asn).table.advice@.len() && j != config.left.index as int
                            ==> #[trigger] final(asn).table.advice@[j] == old(
                            asn,
                        ).table.advice@[j]
                    &&& ((config.left.index as int) < old(asn).table.advice@.len()
                        ==> final(asn).table.advice@[config.left.index as int]@ == old(
                        asn,
                    ).table.advice@[config.left.index as int]@.update(o, self.leaf))
                })
            },
    {
        if self.path_elements.len() != self.path_indices.len() {
            return Err(Error::ShapeMismatch);
        }
        asn.begin_region();
        let mut digest = asn.assign_advice(config.left, 0, self.leaf)?;
        let mut digest_val = self.leaf;
        let mut i: usize = 0;
        while i < self.path_elements.len()
            invariant
                asn.wf(),
                i <= self.path_elements@.len(),
                self.path_elements@.len() == self.path_indices@.len(),
                asn.table.rows == old(asn).table.rows,
                asn.table.advice@.len() == old(asn).table.advice@.len(),
                asn.table.selectors@.len() == old(asn).table.selectors@.len(),
                asn.table.tables@ == old(asn).table.tables@,
                asn.table.advice_eq@ == old(asn).table.advice_eq@,
                asn.table.instance_eq@ == old(asn).table.instance_eq@,
                asn.table.copies@.len() == old(asn).table.copies@.len() + i,
                asn.table.bindings@ == old(asn).table.bindings@,
                (merkle_distinct(*config) && i > 0) ==> digest.column == config.bit.index,
                i == 0 ==> digest.column == config.left.index,
                merkle_distinct(*config) ==> asn.offset + asn.used == old(asn).offset + old(
                    asn,
                ).used + 1 + 2 * i,
                merkle_distinct(*config) ==> digest.row as int == asn.offset + asn.used - 1,
                merkle_distinct(*config) ==> digest.row < asn.table.rows,
                self.path_elements@.len() == 0 ==> {
                    let o = old(asn).offset + old(asn).used;
                    &&& digest.row as int == o
                    &&& asn.table.selectors@ == old(asn).table.selectors@
                    &&& forall|j: int|
                        0 <= j < old(asn).table.advice@.len() && j != config.left.index as int
                            ==> #[trigger] asn.table.advice@[j] == old(asn).table.advice@[j]
                    &&& ((config.left.index as int) < old(asn).table.advice@.len())
                    &&& asn.table.advice@[config.left.index as int]@ == old(
                        asn,
                    ).table.advice@[config.left.index as int]@.update(o, self.leaf)
                },
            decreases self.path_elements@.len() - i,
        {
            let (cell, value) = self.merkle_prove_layer(
                config,
                asn,
                digest,
                digest_val,
                self.path_elements[i],
                self.path_indices[i],
            )?;
            digest = cell;
            digest_val = value;
            i = i + 1;
        }
        asn.constrain_instance(digest, config.root_hash, 0)?;
        Ok(digest)
    }
}

} // verus!
