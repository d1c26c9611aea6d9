//! Multiplication, hardened stage: a gate demands `a * b - out = 0` on
//! the active row and the output cell is copied to the public input, so a
//! forged output cell is caught.

use vstd::prelude::*;
use vstd::string::StringExecFns;

use crate::assign::Assigner;
use crate::assign::InstanceBinding;
use crate::error::Error;
use crate::expression::expr_wf;
use crate::expression::Expression;
use crate::layout::AdviceColumn;
use crate::layout::Cell;
use crate::layout::InstanceColumn;
use crate::layout::Selector;
use crate::system::ConstraintSystem;
use crate::value::opt_mul;
use crate::value::Value;

verus! {

/// The two factors.
pub struct MultiplicationCircuit {
    pub a: Value,
    pub b: Value,
}

/// One advice column, the public-input column, and a gate selector.
#[derive(Clone, Copy, Debug)]
pub struct MultiplicationConfig {
    pub advice: AdviceColumn,
    pub instance: InstanceColumn,
    pub myselector: Selector,
}

/// The mul gate's polynomial over advice column `c`:
/// `c[r] * c[r+1] - c[r+2]`.
pub open spec fn mul_gate_poly(c: usize) -> Expression {
    Expression::Sum(
        Box::new(
            Expression::Product(
                Box::new(Expression::Advice { column: c, rotation: 0 }),
                Box::new(Expression::Advice { column: c, rotation: 1 }),
            ),
        ),
        Box::new(Expression::Negate(Box::new(Expression::Advice { column: c, rotation: 2 }))),
    )
}

/// What [`MultiplicationCircuit::configure`] does to the constraint
/// system: fresh equality-enabled advice and instance columns, a fresh
/// selector, and one gate carrying exactly [`mul_gate_poly`].
pub open spec fn configured(
    pre: ConstraintSystem,
    post: ConstraintSystem,
    config: MultiplicationConfig,
) -> bool {
    &&& (config.advice.index as int) == pre.num_advice()
    &&& (config.instance.index as int) == pre.num_instance()
    &&& config.myselector.index == pre.num_selectors
    &&& post.advice_eq@ == pre.advice_eq@.push(false).update(config.advice.index as int, true)
    &&& post.instance_eq@ == pre.instance_eq@.push(false).update(
        config.instance.index as int,
        true,
    )
    &&& post.num_table_columns == pre.num_table_columns
    &&& post.num_selectors == pre.num_selectors + 1
    &&& post.gates@.len() == pre.gates@.len() + 1
    &&& forall|g: int| 0 <= g < pre.gates@.len() ==> #[trigger] post.gates@[g] == pre.gates@[g]
    &&& post.gates@.last().selector == config.myselector.index
    &&& post.gates@.last().polys@ =~= seq![mul_gate_poly(config.advice.index)]
    &&& post.gates@.last().name@ == "mul gate"@
    &&& post.lookups@ == pre.lookups@
}

/// What [`MultiplicationCircuit::synthesize`] does to the assigner: the
/// two factors and their product on three fresh rows, the mul selector on
/// the first of them, and the product cell bound to public input 0.
pub open spec fn synthesized(
    pre: Assigner,
    post: Assigner,
    config: MultiplicationConfig,
    a: Value,
    b: Value,
    out: Cell,
) -> bool {
    let o = pre.offset + pre.used;
    let c = config.advice.index as int;
    let s = config.myselector.index as int;
    &&& out.column == config.advice.index
    &&& out.row as int == o + 2
    &&& post.offset == o
    &&& post.used == 3
    &&& post.table.rows == pre.table.rows
    &&& post.table.advice@.len() == pre.table.advice@.len()
    &&& forall|j: int|
        0 <= j < pre.table.advice@.len() && j != c ==> #[trigger] post.table.advice@[j]
            == pre.table.advice@[j]
    &&& post.table.advice@[c]@ == pre.table.advice@[c]@.update(o, a).update(o + 1, b).update(
        o + 2,
        post.table.advice@[c]@[o + 2],
    )
    &&& post.table.advice@[c]@[o + 2].as_opt() == opt_mul(a.as_opt(), b.as_opt())
    &&& post.table.selectors@.len() == pre.table.selectors@.len()
    &&& forall|j: int|
        0 <= j < pre.table.selectors@.len() && j != s ==> #[trigger] post.table.selectors@[j]
            == pre.table.selectors@[j]
    &&& post.table.selectors@[s]@ == pre.table.selectors@[s]@.update(o, true)
    &&& post.table.tables@ == pre.table.tables@
    &&& post.table.advice_eq@ == pre.table.advice_eq@
    &&& post.table.instance_eq@ == pre.table.instance_eq@
    &&& post.table.copies@ == pre.table.copies@
    &&& post.table.bindings@ == pre.table.bindings@.push(
        InstanceBinding { cell: out, column: config.instance.index, row: 0 },
    )
}

impl MultiplicationCircuit {
    /// Registers the columns and a gate
    /// `advice[r] * advice[r+1] - advice[r+2] = 0`.
    pub fn configure(cs: &mut ConstraintSystem) -> (r: Result<MultiplicationConfig, Error>)
        requires
            old(cs).wf(),
        ensures
            final(cs).wf(),
            old(cs).num_selectors < usize::MAX ==> r is Ok,
            r matches Ok(config) ==> configured(*old(cs), *final(cs), config),
    {
        let advice = cs.advice_column();
        let instance = cs.instance_column();
        cs.enable_equality(advice)?;
        cs.enable_instance_equality(instance)?;
        if cs.num_selectors == usize::MAX {
            return Err(Error::SizeTooLarge);
        }
        let myselector = cs.selector();
        let mut polys: Vec<Expression> = Vec::new();
        polys.push(
            Expression::advice(advice, 0).mul(Expression::advice(advice, 1)).sub(
                Expression::advice(advice, 2),
            ),
        );
        proof {
            let na = cs.num_advice();
            let ni = cs.num_instance();
            let ns = cs.num_selectors as int;
            let c = advice.index;
            assert(expr_wf(Expression::Advice { column: c, rotation: 0 }, na, ni, ns));
            assert(expr_wf(Expression::Advice { column: c, rotation: 1 }, na, ni, ns));
            assert(expr_wf(Expression::Advice { column: c, rotation: 2 }, na, ni, ns));
            assert(expr_wf(
                Expression::Product(
                    Box::new(Expression::Advice { column: c, rotation: 0 }),
                    Box::new(Expression::Advice { column: c, rotation: 1 }),
                ),
                na,
                ni,
                ns,
            ));
            assert(expr_wf(
                Expression::Negate(Box::new(Expression::Advice { column: c, rotation: 2 })),
                na,
                ni,
                ns,
            ));
            assert(expr_wf(mul_gate_poly(c), na, ni, ns));
        }
        cs.create_gate(String::from_str("mul gate"), myselector, polys)?;
        Ok(MultiplicationConfig { advice, instance, myselector })
    }

    /// Writes `a`, `b` and `a * b`, activates the mul gate on the first
    /// of three fresh rows, and binds the product to the public input.
    pub fn synthesize(&self, config: &MultiplicationConfig, asn: &mut Assigner) -> (r: Result<
        Cell,
        Error,
    >)
        requires
            old(asn).wf(),
        ensures
            final(asn).wf(),
            ({
                let o = old(asn).offset + old(asn).used;
                ((config.advice.index as int) < old(asn).table.num_advice() && old(
                    asn,
                ).table.advice_eq@[config.advice.index as int] && (config.instance.index as int)
                    < old(asn).table.num_instance() && old(
                    asn,
                ).table.instance_eq@[config.instance.index as int] && config.myselector.index < old(
                    asn,
                ).table.selectors@.len() && o + 3 <= old(asn).table.rows) ==> r is Ok
            }),
            r matches Ok(out) ==> synthesized(*old(asn), *final(asn), *config, self.a, self.b, out),
    {
        asn.begin_region();
        asn.enable_selector(config.myselector, 0)?;
        asn.assign_advice(config.advice, 0, self.a)?;
        asn.assign_advice(config.advice, 1, self.b)?;
        let out = asn.assign_advice(config.advice, 2, self.a.mul(self.b))?;
        asn.constrain_instance(out, config.instance, 0)?;
        Ok(out)
    }
}

} // verus!
