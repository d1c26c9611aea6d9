//! The constraint system: the immutable shape of a circuit.
//!
//! A builder registers columns, selectors, equality-enabled columns, gates
//! and lookup arguments.  It is built once per circuit shape, before any
//! assignment begins, and is immutable afterwards.  Registration fails
//! fast with a configuration [`Error`] when a gate or lookup references a
//! column or selector that does not exist.

use vstd::prelude::*;

use crate::error::Error;
use crate::expression::check_expr;
use crate::expression::expr_wf;
use crate::expression::Expression;
use crate::layout::AdviceColumn;
use crate::layout::InstanceColumn;
use crate::layout::Selector;
use crate::layout::TableColumn;

verus! {

/// A named set of polynomial constraints gated by one selector: every
/// expression must evaluate to zero at every row where the selector is
/// enabled.
#[derive(Debug)]
pub struct Gate {
    pub name: String,
    pub selector: usize,
    pub polys: Vec<Expression>,
}

impl Gate {
    /// Every referenced selector and column exists.
    pub open spec fn wf(self, na: int, ni: int, ns: int) -> bool {
        &&& self.selector < ns
        &&& forall|i: int|
            0 <= i < self.polys@.len() ==> expr_wf(#[trigger] self.polys@[i], na, ni, ns)
    }
}

/// A named lookup argument: at every row, the input expression must
/// evaluate to a value assigned somewhere in the target table column.
#[derive(Debug)]
pub struct LookupArgument {
    pub name: String,
    pub input: Expression,
    pub table: usize,
}

impl LookupArgument {
    /// The lookup only references columns that exist.
    pub open spec fn wf(self, na: int, ni: int, ns: int, nt: int) -> bool {
        &&& self.table < nt
        &&& expr_wf(self.input, na, ni, ns)
    }
}

/// The registered shape of a circuit: its columns, selectors, gates and
/// lookup arguments.
#[derive(Debug)]
pub struct ConstraintSystem {
    /// Per advice column: whether it may take part in copy constraints.
    pub advice_eq: Vec<bool>,
    /// Per instance column: whether it may take part in copy constraints.
    pub instance_eq: Vec<bool>,
    /// The number of lookup table columns.
    pub num_table_columns: usize,
    /// The number of selectors.
    pub num_selectors: usize,
    /// The registered gates.
    pub gates: Vec<Gate>,
    /// The registered lookup arguments.
    pub lookups: Vec<LookupArgument>,
}

impl ConstraintSystem {
    /// The number of advice columns.
    pub open spec fn num_advice(self) -> int {
        self.advice_eq@.len() as int
    }

    /// The number of instance columns.
    pub open spec fn num_instance(self) -> int {
        self.instance_eq@.len() as int
    }

    /// Every registered gate and lookup references only columns and
    /// selectors that exist.
    pub open spec fn wf(self) -> bool {
        &&& forall|g: int|
            0 <= g < self.gates@.len() ==> (#[trigger] self.gates@[g]).wf(
                self.num_advice(),
                self.num_instance(),
                self.num_selectors as int,
            )
        &&& forall|l: int|
            0 <= l < self.lookups@.len() ==> (#[trigger] self.lookups@[l]).wf(
                self.num_advice(),
                self.num_instance(),
                self.num_selectors as int,
                self.num_table_columns as int,
            )
    }

    /// An empty constraint system: no columns, selectors, gates or lookups.
    pub fn new() -> (r: ConstraintSystem)
        ensures
            r.wf(),
            r.advice_eq@ =~= Seq::<bool>::empty(),
            r.instance_eq@ =~= Seq::<bool>::empty(),
            r.num_table_columns == 0,
            r.num_selectors == 0,
            r.gates@ =~= Seq::<Gate>::empty(),
            r.lookups@ =~= Seq::<LookupArgument>::empty(),
    {
        ConstraintSystem {
            advice_eq: Vec::new(),
            instance_eq: Vec::new(),
            num_table_columns: 0,
            num_selectors: 0,
            gates: Vec::new(),
            lookups: Vec::new(),
        }
    }

    /// Registers a fresh advice column, not yet equality-enabled.
    pub fn advice_column(&mut self) -> (c: AdviceColumn)
        requires
            old(self).wf(),
        ensures
            final(self).wf(),
            c.index as int == old(self).num_advice(),
            final(self).advice_eq@ == old(self).advice_eq@.push(false),
            final(self).instance_eq@ == old(self).instance_eq@,
            final(self).num_table_columns == old(self).num_table_columns,
            final(self).num_selectors == old(self).num_selectors,
            final(self).gates@ == old(self).gates@,
            final(self).lookups@ == old(self).lookups@,
    {
        let index = self.advice_eq.len();
        self.advice_eq.push(false);
        proof {
            lemma_shape_widen(
                self.gates@,
                self.lookups@,
                old(self).num_advice(),
                self.num_advice(),
                self.num_instance(),
                self.num_instance(),
                self.num_selectors as int,
                self.num_selectors as int,
                self.num_table_columns as int,
                self.num_table_columns as int,
            );
        }
        AdviceColumn { index }
    }

    /// Registers a fresh instance column, not yet equality-enabled.
    pub fn instance_column(&mut self) -> (c: InstanceColumn)
        requires
            old(self).wf(),
        ensures
            final(self).wf(),
            c.index as int == old(self).num_instance(),
            final(self).instance_eq@ == old(self).instance_eq@.push(false),
            final(self).advice_eq@ == old(self).advice_eq@,
            final(self).num_table_columns == old(self).num_table_columns,
            final(self).num_selectors == old(self).num_selectors,
            final(self).gates@ == old(self).gates@,
            final(self).lookups@ == old(self).lookups@,
    {
        let index = self.instance_eq.len();
        self.instance_eq.push(false);
        proof {
            lemma_shape_widen(
                self.gates@,
                self.lookups@,
                self.num_advice(),
                self.num_advice(),
                old(self).num_instance(),
                self.num_instance(),
                self.num_selectors as int,
                self.num_selectors as int,
                self.num_table_columns as int,
                self.num_table_columns as int,
            );
        }
        InstanceColumn { index }
    }

    /// Registers a fresh lookup table column.
    pub fn lookup_table_column(&mut self) -> (c: TableColumn)
        requires
            old(self).wf(),
            old(self).num_table_columns < usize::MAX,
        ensures
            final(self).wf(),
            c.index == old(self).num_table_columns,
            final(self).num_table_columns == old(self).num_table_columns + 1,
            final(self).advice_eq@ == old(self).advice_eq@,
            final(self).instance_eq@ == old(self).instance_eq@,
            final(self).num_selectors == old(self).num_selectors,
            final(self).gates@ == old(self).gates@,
            final(self).lookups@ == old(self).lookups@,
    {
        let index = self.num_table_columns;
        self.num_table_columns = self.num_table_columns + 1;
        proof {
            lemma_shape_widen(
                self.gates@,
                self.lookups@,
                self.num_advice(),
                self.num_advice(),
                self.num_instance(),
                self.num_instance(),
                self.num_selectors as int,
                self.num_selectors as int,
                old(self).num_table_columns as int,
                self.num_table_columns as int,
            );
        }
        TableColumn { index }
    }

    /// Registers a fresh selector, false on every row until enabled during
    /// assignment.
    pub fn selector(&mut self) -> (s: Selector)
        requires
            old(self).wf(),
            old(self).num_selectors < usize::MAX,
        ensures
            final(self).wf(),
            s.index == old(self).num_selectors,
            final(self).num_selectors == old(self).num_selectors + 1,
            final(self).advice_eq@ == old(self).advice_eq@,
            final(self).instance_eq@ == old(self).instance_eq@,
            final(self).num_table_columns == old(self).num_table_columns,
            final(self).gates@ == old(self).gates@,
            final(self).lookups@ == old(self).lookups@,
    {
        let index = self.num_selectors;
        self.num_selectors = self.num_selectors + 1;
        proof {
            lemma_shape_widen(
                self.gates@,
                self.lookups@,
                self.num_advice(),
                self.num_advice(),
                self.num_instance(),
                self.num_instance(),
                old(self).num_selectors as int,
                self.num_selectors as int,
                self.num_table_columns as int,
                self.num_table_columns as int,
            );
        }
        Selector { index }
    }

    /// Marks an advice column as eligible for copy constraints.
    pub fn enable_equality(&mut self, column: AdviceColumn) -> (r: Result<(), Error>)
        requires
            old(self).wf(),
        ensures
            final(self).wf(),
            r is Ok <==> (column.index as int) < old(self).num_advice(),
            r is Ok ==> final(self).advice_eq@ == old(self).advice_eq@.update(
                column.index as int,
                true,
            ),
            r is Err ==> *final(self) == *old(self) && r == Err::<(), Error>(
                Error::ColumnOutOfBounds,
            ),
            final(self).instance_eq@ == old(self).instance_eq@,
            final(self).num_table_columns == old(self).num_table_columns,
            final(self).num_selectors == old(self).num_selectors,
            final(self).gates@ == old(self).gates@,
            final(self).lookups@ == old(self).lookups@,
    {
        if column.index < self.advice_eq.len() {
            self.advice_eq[column.index] = true;
            Ok(())
        } else {
            Err(Error::ColumnOutOfBounds)
        }
    }

    /// Marks an instance column as eligible for copy constraints.
    pub fn enable_instance_equality(&mut self, column: InstanceColumn) -> (r: Result<(), Error>)
        requires
            old(self).wf(),
        ensures
            final(self).wf(),
            r is Ok <==> (column.index as int) < old(self).num_instance(),
            r is Ok ==> final(self).instance_eq@ == old(self).instance_eq@.update(
                column.index as int,
                true,
            ),
            r is Err ==> *final(self) == *old(self) && r == Err::<(), Error>(
                Error::ColumnOutOfBounds,
            ),
            final(self).advice_eq@ == old(self).advice_eq@,
            final(self).num_table_columns == old(self).num_table_columns,
            final(self).num_selectors == old(self).num_selectors,
            final(self).gates@ == old(self).gates@,
            final(self).lookups@ == old(self).lookups@,
    {
        if column.index < self.instance_eq.len() {
            self.instance_eq[column.index] = true;
            Ok(())
        } else {
            Err(Error::ColumnOutOfBounds)
        }
    }

    /// Registers a gate: the named expressions must all vanish wherever the
    /// selector is enabled.  Fails fast when the selector or a queried
    /// column does not exist.
    pub fn create_gate(&mut self, name: String, selector: Selector, polys: Vec<Expression>) -> (r:
        Result<(), Error>)
        requires
            old(self).wf(),
        ensures
            final(self).wf(),
            r is Ok <==> (Gate { name, selector: selector.index, polys }).wf(
                old(self).num_advice(),
                old(self).num_instance(),
                old(self).num_selectors as int,
            ),
            r is Ok ==> final(self).gates@ == old(self).gates@.push(
                Gate { name, selector: selector.index, polys },
            ),
            r is Err ==> final(self).gates@ == old(self).gates@,
            final(self).advice_eq@ == old(self).advice_eq@,
            final(self).instance_eq@ == old(self).instance_eq@,
            final(self).num_table_columns == old(self).num_table_columns,
            final(self).num_selectors == old(self).num_selectors,
            final(self).lookups@ == old(self).lookups@,
    {
        if selector.index >= self.num_selectors {
            return Err(Error::SelectorOutOfBounds);
        }
        let na = self.advice_eq.len();
        let ni = self.instance_eq.len();
        let mut i: usize = 0;
        while i < polys.len()
            invariant
                *self == *old(self),
                old(self).wf(),
                i <= polys.len(),
                na as int == old(self).num_advice(),
                ni as int == old(self).num_instance(),
                forall|j: int|
                    0 <= j < i ==> expr_wf(
                        #[trigger] polys@[j],
                        na as int,
                        ni as int,
                        old(self).num_selectors as int,
                    ),
            decreases polys.len() - i,
        {
            if !check_expr(&polys[i], na, ni, self.num_selectors) {
                proof {
                    assert(!expr_wf(
                        (Gate { name, selector: selector.index, polys }).polys@[i as int],
                        na as int,
                        ni as int,
                        old(self).num_selectors as int,
                    ));
                }
                return Err(Error::ColumnOutOfBounds);
            }
            i = i + 1;
        }
        self.gates.push(Gate { name, selector: selector.index, polys });
        Ok(())
    }

    /// Registers a lookup argument: at every row, the input expression's
    /// value must appear somewhere in the table column.  Fails fast when
    /// the table column or a queried column does not exist.
    pub fn lookup(&mut self, name: String, input: Expression, table: TableColumn) -> (r: Result<
        (),
        Error,
    >)
        requires
            old(self).wf(),
        ensures
            final(self).wf(),
            r is Ok <==> (LookupArgument { name, input, table: table.index }).wf(
                old(self).num_advice(),
                old(self).num_instance(),
                old(self).num_selectors as int,
                old(self).num_table_columns as int,
            ),
            r is Ok ==> final(self).lookups@ == old(self).lookups@.push(
                LookupArgument { name, input, table: table.index },
            ),
            r is Err ==> final(self).lookups@ == old(self).lookups@,
            final(self).advice_eq@ == old(self).advice_eq@,
            final(self).instance_eq@ == old(self).instance_eq@,
            final(self).num_table_columns == old(self).num_table_columns,
            final(self).num_selectors == old(self).num_selectors,
            final(self).gates@ == old(self).gates@,
    {
        if table.index >= self.num_table_columns {
            return Err(Error::ColumnOutOfBounds);
        }
        if !check_expr(&input, self.advice_eq.len(), self.instance_eq.len(), self.num_selectors) {
            return Err(Error::ColumnOutOfBounds);
        }
        self.lookups.push(LookupArgument { name, input, table: table.index });
        Ok(())
    }
}

/// An expression stays well formed when columns or selectors are added.
proof fn lemma_expr_wf_widen(e: Expression, na0: int, na1: int, ni0: int, ni1: int, ns0: int, ns1: int)
    requires
        expr_wf(e, na0, ni0, ns0),
        na0 <= na1,
        ni0 <= ni1,
        ns0 <= ns1,
    ensures
        expr_wf(e, na1, ni1, ns1),
    decreases e,
{
    match e {
        Expression::Negate(inner) => lemma_expr_wf_widen(*inner, na0, na1, ni0, ni1, ns0, ns1),
        Expression::Sum(a, b) => {
            lemma_expr_wf_widen(*a, na0, na1, ni0, ni1, ns0, ns1);
            lemma_expr_wf_widen(*b, na0, na1, ni0, ni1, ns0, ns1);
        },
        Expression::Product(a, b) => {
            lemma_expr_wf_widen(*a, na0, na1, ni0, ni1, ns0, ns1);
            lemma_expr_wf_widen(*b, na0, na1, ni0, ni1, ns0, ns1);
        },
        _ => {},
    }
}

/// Gates and lookups stay well formed when columns or selectors are added.
proof fn lemma_shape_widen(
    gates: Seq<Gate>,
    lookups: Seq<LookupArgument>,
    na0: int,
    na1: int,
    ni0: int,
    ni1: int,
    ns0: int,
    ns1: int,
    nt0: int,
    nt1: int,
)
    requires
        forall|g: int| 0 <= g < gates.len() ==> (#[trigger] gates[g]).wf(na0, ni0, ns0),
        forall|l: int| 0 <= l < lookups.len() ==> (#[trigger] lookups[l]).wf(na0, ni0, ns0, nt0),
        na0 <= na1,
        ni0 <= ni1,
        ns0 <= ns1,
        nt0 <= nt1,
    ensures
        forall|g: int| 0 <= g < gates.len() ==> (#[trigger] gates[g]).wf(na1, ni1, ns1),
        forall|l: int| 0 <= l < lookups.len() ==> (#[trigger] lookups[l]).wf(na1, ni1, ns1, nt1),
{
    assert forall|g: int| 0 <= g < gates.len() implies (#[trigger] gates[g]).wf(na1, ni1, ns1) by {
        assert forall|i: int| 0 <= i < gates[g].polys@.len() implies expr_wf(
            #[trigger] gates[g].polys@[i],
            na1,
            ni1,
            ns1,
        ) by {
            lemma_expr_wf_widen(gates[g].polys@[i], na0, na1, ni0, ni1, ns0, ns1);
        }
    }
    assert forall|l: int| 0 <= l < lookups.len() implies (#[trigger] lookups[l]).wf(
        na1,
        ni1,
        ns1,
        nt1,
    ) by {
        lemma_expr_wf_widen(lookups[l].input, na0, na1, ni0, ni1, ns0, ns1);
    }
}

} // verus!
