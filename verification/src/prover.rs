//! The mock prover: decides whether a witness satisfies a circuit.
//!
//! [`Verifier::run`] packages a size exponent, a constraint system, an
//! assignment table and the public instance vectors, after checking that
//! they fit together and that every rotation stays inside the circuit
//! wherever it is evaluated.  [`Verifier::verify`] then evaluates every
//! gate at every active row, checks every copy-constraint equivalence
//! class, and checks every lookup at every row, accumulating all
//! violations rather than stopping at the first.

use vstd::arithmetic::power2::pow2;
use vstd::prelude::*;

use crate::assign::AssignmentTable;
use crate::error::Error;
use crate::expression::check_rotations;
use crate::expression::expr_rotations_ok;
use crate::expression::expr_wf;
use crate::expression::Expression;
use crate::field::FieldElement;
use crate::layout::CellRef;
use crate::permutation::related;
use crate::value::opt_add;
use crate::value::opt_mul;
use crate::value::opt_neg;
use crate::value::Value;
use crate::system::ConstraintSystem;

verus! {

/// Where an unassigned cell was discovered.
#[derive(Clone, Copy, Debug, PartialEq, Eq, Structural)]
pub enum UnassignedAt {
    /// While evaluating one polynomial of a gate at an active row.
    Gate { gate: usize, row: usize, poly: usize },
    /// A copy-constraint class whose members are all unassigned; `cell`
    /// is one of its members.
    CopyClass { cell: CellRef },
    /// While evaluating a lookup input at a row.
    Lookup { lookup: usize, row: usize },
}

/// One way a witness can fail verification.  Violations are data, never
/// fatal: the verifier returns every violation it finds.
#[derive(Clone, Copy, Debug, PartialEq, Eq, Structural)]
pub enum Violation {
    /// A gate polynomial evaluated to a nonzero value at an active row.
    ConstraintNotSatisfied { gate: usize, row: usize, poly: usize },
    /// A checked cell was never assigned.
    UnassignedCell { at: UnassignedAt },
    /// Two copy-constrained advice cells hold different values.
    CopyConstraintViolation { a: CellRef, b: CellRef },
    /// A cell bound to a public input differs from it.
    PublicInputMismatch { a: CellRef, b: CellRef },
    /// A lookup input's value appears nowhere in its table column.
    LookupViolation { lookup: usize, row: usize },
}

/// A packaged verification run: shape, witness and public inputs that fit
/// together.
#[derive(Debug)]
pub struct Verifier {
    /// The size exponent: the circuit has `2^k` rows.
    pub k: usize,
    /// The circuit shape.
    pub cs: ConstraintSystem,
    /// The witness.
    pub table: AssignmentTable,
    /// One vector of public values per instance column.
    pub instances: Vec<Vec<FieldElement>>,
}

/// Every gate polynomial's rotations stay inside the circuit at every
/// row where its selector is enabled.
pub open spec fn gate_rotations_ok(cs: ConstraintSystem, table: AssignmentTable) -> bool {
    forall|g: int, r: int, i: int|
        0 <= g < cs.gates@.len() && 0 <= r < table.rows && 0 <= i < cs.gates@[g].polys@.len()
            && table.selectors@[cs.gates@[g].selector as int]@[r]
            ==> #[trigger] expr_rotations_ok(cs.gates@[g].polys@[i], r, table.rows as int)
}

/// Every lookup input's rotations stay inside the circuit at every row.
pub open spec fn lookup_rotations_ok(cs: ConstraintSystem, table: AssignmentTable) -> bool {
    forall|l: int, r: int|
        0 <= l < cs.lookups@.len() && 0 <= r < table.rows ==> #[trigger] expr_rotations_ok(
            cs.lookups@[l].input,
            r,
            table.rows as int,
        )
}

impl Verifier {
    /// The number of rows, `2^k`.
    pub open spec fn rows(self) -> int {
        self.table.rows as int
    }

    /// The number of advice columns.
    pub open spec fn num_advice(self) -> int {
        self.cs.num_advice()
    }

    /// The number of instance columns.
    pub open spec fn num_instance(self) -> int {
        self.cs.num_instance()
    }

    /// The advice value at column `c`, row `r`; `None` when unassigned.
    pub open spec fn adv_at(self, c: int, r: int) -> Option<int> {
        self.table.advice@[c]@[r].as_opt()
    }

    /// The public value at instance column `c`, row `r`: the supplied
    /// value, or zero past the supplied prefix.
    pub open spec fn inst_at(self, c: int, r: int) -> int {
        if 0 <= r < self.instances@[c]@.len() {
            self.instances@[c]@[r].as_int()
        } else {
            0
        }
    }

    /// Whether selector `s` is enabled at row `r`.
    pub open spec fn sel_at(self, s: int, r: int) -> bool {
        self.table.selectors@[s]@[r]
    }

    /// The lookup table value at column `t`, row `r`; `None` when that
    /// slot was never assigned.
    pub open spec fn table_at(self, t: int, r: int) -> Option<int> {
        match self.table.tables@[t]@[r] {
            Some(f) => Some(f.as_int()),
            None => None,
        }
    }

    /// The value of an expression at a row: each query resolves at
    /// `row + rotation`, `Unknown` propagates, arithmetic is field
    /// arithmetic.
    pub open spec fn eval(self, e: Expression, row: int) -> Option<int>
        decreases e,
    {
        match e {
            Expression::Constant(f) => Some(f.as_int()),
            Expression::Advice { column, rotation } => self.adv_at(
                column as int,
                row + rotation as int,
            ),
            Expression::Instance { column, rotation } => Some(
                self.inst_at(column as int, row + rotation as int),
            ),
            Expression::Selector { selector } => Some(
                if self.sel_at(selector as int, row) {
                    1
                } else {
                    0
                },
            ),
            Expression::Negate(a) => opt_neg(self.eval(*a, row)),
            Expression::Sum(a, b) => opt_add(self.eval(*a, row), self.eval(*b, row)),
            Expression::Product(a, b) => opt_mul(self.eval(*a, row), self.eval(*b, row)),
        }
    }

    /// Shape, witness and instances fit together, and every rotation is
    /// in range wherever the verifier will evaluate it.
    pub open spec fn wf(self) -> bool {
        &&& self.shape_fits()
        &&& gate_rotations_ok(self.cs, self.table)
        &&& lookup_rotations_ok(self.cs, self.table)
    }

    /// Shape, witness and instances fit together.
    pub open spec fn shape_fits(self) -> bool {
        &&& self.cs.wf()
        &&& self.table.wf()
        &&& 1 <= self.table.rows <= 0x10_0000
        &&& self.table.rows as nat == pow2(self.k as nat)
        &&& self.table.num_advice() == self.cs.num_advice()
        &&& self.table.selectors@.len() == self.cs.num_selectors
        &&& self.table.tables@.len() == self.cs.num_table_columns
        &&& self.table.num_instance() == self.cs.num_instance()
        &&& self.instances@.len() == self.cs.num_instance()
        &&& forall|c: int|
            0 <= c < self.instances@.len() ==> (#[trigger] self.instances@[c])@.len()
                <= self.table.rows
        &&& self.num_cells() <= usize::MAX
    }

    /// The number of copy-constrainable cell identifiers: one per advice
    /// cell and one per instance cell.
    pub open spec fn num_cells(self) -> int {
        (self.num_advice() + self.num_instance()) * self.rows()
    }

    /// The identifier of an advice cell.
    pub open spec fn advice_id(self, c: int, r: int) -> int {
        c * self.rows() + r
    }

    /// The identifier of an instance cell.
    pub open spec fn instance_id(self, c: int, r: int) -> int {
        (self.num_advice() + c) * self.rows() + r
    }

    /// The identifier of a referenced cell.
    pub open spec fn id_of(self, cr: CellRef) -> int {
        match cr {
            CellRef::Advice { column, row } => self.advice_id(column as int, row as int),
            CellRef::Instance { column, row } => self.instance_id(column as int, row as int),
        }
    }

    /// The referenced cell exists.
    pub open spec fn cellref_wf(self, cr: CellRef) -> bool {
        match cr {
            CellRef::Advice { column, row } => column < self.num_advice() && row < self.rows(),
            CellRef::Instance { column, row } => column < self.num_instance() && row
                < self.rows(),
        }
    }

    /// The value of a referenced cell: advice cells may be unassigned,
    /// instance cells always carry their public value.
    pub open spec fn cellref_val(self, cr: CellRef) -> Option<int> {
        match cr {
            CellRef::Advice { column, row } => self.adv_at(column as int, row as int),
            CellRef::Instance { column, row } => Some(self.inst_at(column as int, row as int)),
        }
    }

    /// The declared copy pairs, as pairs of cell identifiers: the advice
    /// pairs first, then the instance bindings.
    pub open spec fn pair_ids(self) -> Seq<(nat, nat)> {
        self.table.copies@.map_values(
            |p: crate::assign::CopyPair|
                (
                    self.advice_id(p.a.column as int, p.a.row as int) as nat,
                    self.advice_id(p.b.column as int, p.b.row as int) as nat,
                ),
        ) + self.table.bindings@.map_values(
            |b: crate::assign::InstanceBinding|
                (
                    self.advice_id(b.cell.column as int, b.cell.row as int) as nat,
                    self.instance_id(b.column as int, b.row as int) as nat,
                ),
        )
    }

    /// The value of the cell with identifier `id`.
    pub open spec fn id_val(self, id: int) -> Option<int> {
        if id < self.num_advice() * self.rows() {
            self.adv_at(id / self.rows(), id % self.rows())
        } else {
            Some(self.inst_at(id / self.rows() - self.num_advice(), id % self.rows()))
        }
    }

    /// Every gate polynomial evaluates to zero at every row where the
    /// gate's selector is enabled — and in particular evaluates at all,
    /// with no unassigned cell in reach.
    pub open spec fn gates_ok(self) -> bool {
        forall|g: int, r: int, i: int|
            0 <= g < self.cs.gates@.len() && 0 <= r < self.rows() && 0 <= i
                < self.cs.gates@[g].polys@.len() && self.sel_at(
                self.cs.gates@[g].selector as int,
                r,
            ) ==> #[trigger] self.eval(self.cs.gates@[g].polys@[i], r) == Some(0int)
    }

    /// The two identifiers agree: wherever both carry a value, it is the
    /// same value.
    pub open spec fn ids_agree(self, x: nat, y: nat) -> bool {
        match (self.id_val(x as int), self.id_val(y as int)) {
            (Some(a), Some(b)) => a == b,
            _ => true,
        }
    }

    /// Any two cells joined by a chain of copy constraints agree wherever
    /// both are assigned.
    pub open spec fn copy_values_ok(self) -> bool {
        forall|x: nat, y: nat|
            #[trigger] related(self.pair_ids(), x, y) ==> self.ids_agree(x, y)
    }

    /// Some member of the class of declared pair `i` carries a value.
    pub open spec fn pair_reaches_value(self, i: int) -> bool {
        exists|z: nat|
            related(self.pair_ids(), self.pair_ids()[i].0, z) && self.id_val(z as int) is Some
    }

    /// No copy-constraint class consists solely of unassigned cells: every
    /// declared pair can reach at least one assigned value.
    pub open spec fn copy_assigned_ok(self) -> bool {
        forall|i: int|
            0 <= i < self.pair_ids().len() ==> #[trigger] self.pair_reaches_value(i)
    }

    /// Some assigned slot of table column `t` holds the value `x`.
    pub open spec fn table_contains(self, t: int, x: int) -> bool {
        exists|r: int| 0 <= r < self.rows() && self.table_at(t, r) == Some(x)
    }

    /// Lookup `l`'s input at row `r` evaluates to a value that appears
    /// somewhere in the lookup's table column.
    pub open spec fn lookup_sat_at(self, l: int, r: int) -> bool {
        match self.eval(self.cs.lookups@[l].input, r) {
            Some(x) => self.table_contains(self.cs.lookups@[l].table as int, x),
            None => false,
        }
    }

    /// Every lookup input, at every row, evaluates to a value that appears
    /// somewhere in the lookup's table column.
    pub open spec fn lookups_ok(self) -> bool {
        forall|l: int, r: int|
            0 <= l < self.cs.lookups@.len() && 0 <= r < self.rows()
                ==> #[trigger] self.lookup_sat_at(l, r)
    }

    /// The witness satisfies the circuit: all three checks pass.
    pub open spec fn ok(self) -> bool {
        &&& self.gates_ok()
        &&& self.copy_values_ok()
        &&& self.copy_assigned_ok()
        &&& self.lookups_ok()
    }

    /// Gate polynomial `i` of gate `g` is active at row `r` and evaluates
    /// to a nonzero value.
    pub open spec fn gate_unsat_at(self, g: int, r: int, i: int) -> bool {
        &&& 0 <= g < self.cs.gates@.len()
        &&& 0 <= r < self.rows()
        &&& 0 <= i < self.cs.gates@[g].polys@.len()
        &&& self.sel_at(self.cs.gates@[g].selector as int, r)
        &&& match self.eval(self.cs.gates@[g].polys@[i], r) {
            Some(x) => x != 0,
            None => false,
        }
    }

    /// Gate polynomial `i` of gate `g` is active at row `r` and touches an
    /// unassigned cell.
    pub open spec fn gate_unassigned_at(self, g: int, r: int, i: int) -> bool {
        &&& 0 <= g < self.cs.gates@.len()
        &&& 0 <= r < self.rows()
        &&& 0 <= i < self.cs.gates@[g].polys@.len()
        &&& self.sel_at(self.cs.gates@[g].selector as int, r)
        &&& self.eval(self.cs.gates@[g].polys@[i], r) is None
    }

    /// Lookup `l`'s input at row `r` evaluates to a value absent from the
    /// whole table column.
    pub open spec fn lookup_missing_at(self, l: int, r: int) -> bool {
        &&& 0 <= l < self.cs.lookups@.len()
        &&& 0 <= r < self.rows()
        &&& match self.eval(self.cs.lookups@[l].input, r) {
            Some(x) => !self.table_contains(self.cs.lookups@[l].table as int, x),
            None => false,
        }
    }

    /// Lookup `l`'s input at row `r` touches an unassigned cell.
    pub open spec fn lookup_unassigned_at(self, l: int, r: int) -> bool {
        &&& 0 <= l < self.cs.lookups@.len()
        &&& 0 <= r < self.rows()
        &&& self.eval(self.cs.lookups@[l].input, r) is None
    }

    /// `a` and `b` are copy-constrained together, both assigned, and
    /// disagree.
    pub open spec fn copy_mismatch(self, a: CellRef, b: CellRef) -> bool {
        &&& self.cellref_wf(a)
        &&& self.cellref_wf(b)
        &&& related(self.pair_ids(), self.id_of(a) as nat, self.id_of(b) as nat)
        &&& match (self.cellref_val(a), self.cellref_val(b)) {
            (Some(x), Some(y)) => x != y,
            _ => false,
        }
    }

    /// `c` appears in a declared copy pair and its whole class is
    /// unassigned.
    pub open spec fn unassigned_class_at(self, c: CellRef) -> bool {
        &&& self.cellref_wf(c)
        &&& exists|i: int|
            0 <= i < self.pair_ids().len() && ((#[trigger] self.pair_ids()[i]).0 == self.id_of(
                c,
            ) as nat || self.pair_ids()[i].1 == self.id_of(c) as nat)
        &&& forall|z: nat|
            #[trigger] related(self.pair_ids(), self.id_of(c) as nat, z) ==> self.id_val(
                z as int,
            ) is None
    }
}


/// Checks [`gate_rotations_ok`] and reports the failing position.
fn check_gate_rotations(cs: &ConstraintSystem, table: &AssignmentTable) -> (b: bool)
    requires
        cs.wf(),
        table.wf(),
        table.selectors@.len() == cs.num_selectors,
        1 <= table.rows <= 0x10_0000,
    ensures
        b == gate_rotations_ok(*cs, *table),
{
    let rows = table.rows;
    let mut g: usize = 0;
    while g < cs.gates.len()
        invariant
            cs.wf(),
            table.wf(),
            table.selectors@.len() == cs.num_selectors,
            1 <= table.rows <= 0x10_0000,
            rows == table.rows,
            g <= cs.gates@.len(),
            forall|gg: int, rr: int, ii: int|
                0 <= gg < g && 0 <= rr < table.rows && 0 <= ii < cs.gates@[gg].polys@.len()
                    && table.selectors@[cs.gates@[gg].selector as int]@[rr]
                    ==> #[trigger] expr_rotations_ok(cs.gates@[gg].polys@[ii], rr, table.rows as int),
        decreases cs.gates@.len() - g,
    {
        let gate = &cs.gates[g];
        let mut r: usize = 0;
        while r < rows
            invariant
                cs.wf(),
                table.wf(),
                table.selectors@.len() == cs.num_selectors,
                1 <= table.rows <= 0x10_0000,
                rows == table.rows,
                g < cs.gates@.len(),
                gate == cs.gates@[g as int],
                r <= rows,
                forall|rr: int, ii: int|
                    0 <= rr < r && 0 <= ii < cs.gates@[g as int].polys@.len()
                        && table.selectors@[cs.gates@[g as int].selector as int]@[rr]
                        ==> #[trigger] expr_rotations_ok(
                        cs.gates@[g as int].polys@[ii],
                        rr,
                        table.rows as int,
                    ),
            decreases rows - r,
        {
            if table.selectors[gate.selector][r] {
                let mut i: usize = 0;
                while i < gate.polys.len()
                    invariant
                        cs.wf(),
                        table.wf(),
                        table.selectors@.len() == cs.num_selectors,
                        1 <= table.rows <= 0x10_0000,
                        rows == table.rows,
                        g < cs.gates@.len(),
                        gate == cs.gates@[g as int],
                        r < rows,
                        table.selectors@[cs.gates@[g as int].selector as int]@[r as int],
                        i <= gate.polys@.len(),
                        forall|ii: int|
                            0 <= ii < i ==> #[trigger] expr_rotations_ok(
                                cs.gates@[g as int].polys@[ii],
                                r as int,
                                table.rows as int,
                            ),
                    decreases gate.polys@.len() - i,
                {
                    if !check_rotations(&gate.polys[i], r, rows) {
                        return false;
                    }
                    i = i + 1;
                }
            }
            r = r + 1;
        }
        g = g + 1;
    }
    true
}

/// Checks [`lookup_rotations_ok`].
fn check_lookup_rotations(cs: &ConstraintSystem, table: &AssignmentTable) -> (b: bool)
    requires
        cs.wf(),
        table.wf(),
        1 <= table.rows <= 0x10_0000,
    ensures
        b == lookup_rotations_ok(*cs, *table),
{
    let rows = table.rows;
    let mut l: usize = 0;
    while l < cs.lookups.len()
        invariant
            cs.wf(),
            table.wf(),
            1 <= table.rows <= 0x10_0000,
            rows == table.rows,
            l <= cs.lookups@.len(),
            forall|ll: int, rr: int|
                0 <= ll < l && 0 <= rr < table.rows ==> #[trigger] expr_rotations_ok(
                    cs.lookups@[ll].input,
                    rr,
                    table.rows as int,
                ),
        decreases cs.lookups@.len() - l,
    {
        let mut r: usize = 0;
        while r < rows
            invariant
                cs.wf(),
                table.wf(),
                1 <= table.rows <= 0x10_0000,
                rows == table.rows,
                l < cs.lookups@.len(),
                r <= rows,
                forall|rr: int|
                    0 <= rr < r ==> #[trigger] expr_rotations_ok(
                        cs.lookups@[l as int].input,
                        rr,
                        table.rows as int,
                    ),
            decreases rows - r,
        {
            if !check_rotations(&cs.lookups[l].input, r, rows) {
                return false;
            }
            r = r + 1;
        }
        l = l + 1;
    }
    true
}

impl Verifier {
    /// Everything [`Verifier::run`] demands of its arguments: the packaged
    /// run would be well formed.
    pub open spec fn accepts(
        k: usize,
        cs: ConstraintSystem,
        table: AssignmentTable,
        instances: Vec<Vec<FieldElement>>,
    ) -> bool {
        (Verifier { k, cs, table, instances }).wf()
    }

    /// Packages a verification run after checking that the witness and the
    /// public inputs fit the circuit shape and that every rotation stays
    /// inside the circuit wherever it will be evaluated.
    pub fn run(
        k: usize,
        cs: ConstraintSystem,
        table: AssignmentTable,
        instances: Vec<Vec<FieldElement>>,
    ) -> (r: Result<Verifier, Error>)
        requires
            cs.wf(),
            table.wf(),
        ensures
            r is Ok <==> Self::accepts(k, cs, table, instances),
            match r {
                Ok(v) => v == (Verifier { k, cs, table, instances }),
                Err(e) => {
                    &&& (e == Error::SizeTooLarge || e == Error::ShapeMismatch || e
                        == Error::RotationOutOfBounds)
                    &&& e == Error::RotationOutOfBounds <==> ((Verifier {
                        k,
                        cs,
                        table,
                        instances,
                    }).shape_fits() && !(gate_rotations_ok(cs, table) && lookup_rotations_ok(
                        cs,
                        table,
                    )))
                },
            },
    {
        if k > crate::assign::MAX_K {
            proof {
                vstd::arithmetic::power2::lemma2_to64();
                if table.rows as nat == pow2(k as nat) {
                    vstd::arithmetic::power2::lemma_pow2_strictly_increases(20, k as nat);
                }
            }
            return Err(Error::SizeTooLarge);
        }
        proof {
            vstd::arithmetic::power2::lemma2_to64();
        }
        let expected = crate::assign::pow2_rows(k);
        if table.rows != expected {
            return Err(Error::ShapeMismatch);
        }
        if table.advice.len() != cs.advice_eq.len() {
            return Err(Error::ShapeMismatch);
        }
        if table.selectors.len() != cs.num_selectors {
            return Err(Error::ShapeMismatch);
        }
        if table.tables.len() != cs.num_table_columns {
            return Err(Error::ShapeMismatch);
        }
        if table.instance_eq.len() != cs.instance_eq.len() {
            return Err(Error::ShapeMismatch);
        }
        if instances.len() != cs.instance_eq.len() {
            return Err(Error::ShapeMismatch);
        }
        let mut c: usize = 0;
        while c < instances.len()
            invariant
                c <= instances@.len(),
                table.rows >= 1,
                forall|j: int|
                    0 <= j < c ==> (#[trigger] instances@[j])@.len() <= table.rows,
            decreases instances@.len() - c,
        {
            if instances[c].len() > table.rows {
                return Err(Error::ShapeMismatch);
            }
            c = c + 1;
        }
        let cols = match cs.advice_eq.len().checked_add(cs.instance_eq.len()) {
            Some(t) => t,
            None => {
                proof {
                    lemma_num_cells_large(
                        cs.advice_eq@.len() as int,
                        cs.instance_eq@.len() as int,
                        table.rows as int,
                    );

                }
                return Err(Error::SizeTooLarge);
            },
        };
        if cols.checked_mul(table.rows).is_none() {
            return Err(Error::SizeTooLarge);
        }
        if !check_gate_rotations(&cs, &table) {
            return Err(Error::RotationOutOfBounds);
        }
        if !check_lookup_rotations(&cs, &table) {
            return Err(Error::RotationOutOfBounds);
        }
        Ok(Verifier { k, cs, table, instances })
    }

    /// The escape hatch at the prover level: overwrites an already-placed
    /// advice value, so a caller can probe whether the checks catch a
    /// forged witness.  Circuit code must never call this.
    pub fn override_advice(&mut self, column: usize, row: usize, value: Value) -> (r: Result<
        (),
        Error,
    >)
        requires
            old(self).wf(),
        ensures
            final(self).wf(),
            final(self).k == old(self).k,
            final(self).cs == old(self).cs,
            final(self).instances == old(self).instances,
            match r {
                Ok(()) => {
                    &&& (column as int) < old(self).num_advice()
                    &&& row < old(self).table.rows
                    &&& final(self).table.updated_at(
                        old(self).table,
                        column as int,
                        row as int,
                        value,
                    )
                },
                Err(e) => {
                    &&& *final(self) == *old(self)
                    &&& if (column as int) >= old(self).num_advice() {
                        e == Error::ColumnOutOfBounds
                    } else {
                        e == Error::RowOutOfBounds && row >= old(self).table.rows
                    }
                },
            },
    {
        let r = self.table.override_advice(column, row, value);
        proof {
            if r is Ok {
                lemma_rotations_value_independent(old(self).cs, old(self).table, self.table);
            }
        }
        r
    }

    /// Evaluates an expression at a row of this run.
    fn eval_expr(&self, e: &Expression, row: usize) -> (v: Value)
        requires
            self.wf(),
            expr_wf(
                *e,
                self.num_advice(),
                self.num_instance(),
                self.cs.num_selectors as int,
            ),
            expr_rotations_ok(*e, row as int, self.rows()),
            row < self.table.rows,
        ensures
            v.as_opt() == self.eval(*e, row as int),
        decreases *e,
    {
        match e {
            Expression::Constant(f) => Value::Known(*f),
            Expression::Advice { column, rotation } => {
                let target = (row as i64 + (*rotation) as i64) as usize;
                self.table.advice[*column][target]
            },
            Expression::Instance { column, rotation } => {
                let target = (row as i64 + (*rotation) as i64) as usize;
                let col = &self.instances[*column];
                if target < col.len() {
                    Value::Known(col[target])
                } else {
                    Value::Known(FieldElement::zero())
                }
            },
            Expression::Selector { selector } => {
                if self.table.selectors[*selector][row] {
                    Value::Known(FieldElement::from_u64(1))
                } else {
                    Value::Known(FieldElement::zero())
                }
            },
            Expression::Negate(a) => self.eval_expr(&**a, row).neg(),
            Expression::Sum(a, b) => {
                let va = self.eval_expr(&**a, row);
                let vb = self.eval_expr(&**b, row);
                va.add(vb)
            },
            Expression::Product(a, b) => {
                let va = self.eval_expr(&**a, row);
                let vb = self.eval_expr(&**b, row);
                va.mul(vb)
            },
        }
    }
}

/// If two columns do not fit one row, all the cells do not fit a machine
/// word either.
proof fn lemma_num_cells_large(na: int, ni: int, rows: int)
    requires
        na + ni > usize::MAX,
        rows >= 1,
    ensures
        (na + ni) * rows > usize::MAX,
{
    vstd::arithmetic::mul::lemma_mul_inequality(1, rows, na + ni);
    vstd::arithmetic::mul::lemma_mul_is_commutative(na + ni, rows);
}

/// Rotation validity reads only selectors and shapes, never advice
/// values, so overwriting an advice cell preserves it.
proof fn lemma_rotations_value_independent(
    cs: ConstraintSystem,
    t0: AssignmentTable,
    t1: AssignmentTable,
)
    requires
        t1.rows == t0.rows,
        t1.selectors@ == t0.selectors@,
        gate_rotations_ok(cs, t0),
        lookup_rotations_ok(cs, t0),
    ensures
        gate_rotations_ok(cs, t1),
        lookup_rotations_ok(cs, t1),
{
}


/// Some reported violation is an unassigned copy class.
pub open spec fn has_unassigned_report(vs: Seq<Violation>) -> bool {
    exists|j: int|
        0 <= j < vs.len() && (#[trigger] vs[j]) matches Violation::UnassignedCell {
            at: UnassignedAt::CopyClass { .. },
        }
}

/// Pushing preserves an unassigned-class report.
proof fn lemma_report_push(s: Seq<Violation>, v: Violation)
    requires
        has_unassigned_report(s),
    ensures
        has_unassigned_report(s.push(v)),
{
    let j = choose|j: int|
        0 <= j < s.len() && (#[trigger] s[j]) matches Violation::UnassignedCell {
            at: UnassignedAt::CopyClass { .. },
        };
    assert(s.push(v)[j] == s[j]);
}

/// After a push, old members are still contained and the new one is.
proof fn lemma_push_keeps_contains<T>(s: Seq<T>, v: T)
    ensures
        forall|x: T| s.contains(x) ==> #[trigger] s.push(v).contains(x),
        s.push(v).contains(v),
{
    assert(s.push(v)[s.len() as int] == v);
    assert forall|x: T| s.contains(x) implies #[trigger] s.push(v).contains(x) by {
        let j = choose|j: int| 0 <= j < s.len() && s[j] == x;
        assert(s.push(v)[j] == x);
    }
}

impl Verifier {
    /// The violation is one emitted while evaluating gates, and it is genuine.
    pub open spec fn gate_violation_genuine(self, v: Violation) -> bool {
        match v {
            Violation::ConstraintNotSatisfied { gate, row, poly } => self.gate_unsat_at(
                gate as int,
                row as int,
                poly as int,
            ),
            Violation::UnassignedCell { at } => match at {
                UnassignedAt::Gate { gate, row, poly } => self.gate_unassigned_at(
                    gate as int,
                    row as int,
                    poly as int,
                ),
                _ => false,
            },
            _ => false,
        }
    }

    /// Evaluates every gate polynomial at every row where the owning gate's
    /// selector is enabled, and reports every nonzero value and every
    /// unassigned cell.
    fn check_gates(&self) -> (vs: Vec<Violation>)
        requires
            self.wf(),
        ensures
            forall|j: int| 0 <= j < vs@.len() ==> self.gate_violation_genuine(#[trigger] vs@[j]),
            forall|g: usize, row: usize, i: usize|
                self.gate_unsat_at(g as int, row as int, i as int) ==> #[trigger] vs@.contains(
                    (Violation::ConstraintNotSatisfied { gate: g, row, poly: i }),
                ),
            forall|g: usize, row: usize, i: usize|
                self.gate_unassigned_at(g as int, row as int, i as int) ==> #[trigger] vs@.contains(
                    (Violation::UnassignedCell {
                        at: UnassignedAt::Gate { gate: g, row, poly: i },
                    }),
                ),
    {
        let rows = self.table.rows;
        let mut vs: Vec<Violation> = Vec::new();
        let mut g: usize = 0;
        while g < self.cs.gates.len()
            invariant
                self.wf(),
                rows == self.table.rows,
                g <= self.cs.gates@.len(),
                forall|j: int|
                    0 <= j < vs@.len() ==> self.gate_violation_genuine(#[trigger] vs@[j]),
                forall|gg: usize, rr: usize, ii: usize|
                    gg < g && self.gate_unsat_at(gg as int, rr as int, ii as int) ==> #[trigger] vs@.contains(
                        (Violation::ConstraintNotSatisfied {
                            gate: gg,
                            row: rr,
                            poly: ii,
                        }),
                    ),
                forall|gg: usize, rr: usize, ii: usize|
                    gg < g && self.gate_unassigned_at(gg as int, rr as int, ii as int)
                        ==> #[trigger] vs@.contains(
                        (Violation::UnassignedCell {
                            at: UnassignedAt::Gate { gate: gg, row: rr, poly: ii },
                        }),
                    ),
            decreases self.cs.gates@.len() - g,
        {
            let gate = &self.cs.gates[g];
            let mut r: usize = 0;
            while r < rows
                invariant
                    self.wf(),
                    rows == self.table.rows,
                    g < self.cs.gates@.len(),
                    gate == self.cs.gates@[g as int],
                    r <= rows,
                    forall|j: int|
                        0 <= j < vs@.len() ==> self.gate_violation_genuine(#[trigger] vs@[j]),
                    forall|gg: usize, rr: usize, ii: usize|
                        gg < g && self.gate_unsat_at(gg as int, rr as int, ii as int)
                            ==> #[trigger] vs@.contains(
                            (Violation::ConstraintNotSatisfied {
                                gate: gg,
                                row: rr,
                                poly: ii,
                            }),
                        ),
                    forall|gg: usize, rr: usize, ii: usize|
                        gg < g && self.gate_unassigned_at(gg as int, rr as int, ii as int)
                            ==> #[trigger] vs@.contains(
                            (Violation::UnassignedCell {
                                at: UnassignedAt::Gate { gate: gg, row: rr, poly: ii },
                            }),
                        ),
                    forall|rr: usize, ii: usize|
                        rr < r && self.gate_unsat_at(g as int, rr as int, ii as int)
                            ==> #[trigger] vs@.contains(
                            (Violation::ConstraintNotSatisfied {
                                gate: g,
                                row: rr,
                                poly: ii,
                            }),
                        ),
                    forall|rr: usize, ii: usize|
                        rr < r && self.gate_unassigned_at(g as int, rr as int, ii as int)
                            ==> #[trigger] vs@.contains(
                            (Violation::UnassignedCell {
                                at: UnassignedAt::Gate { gate: g, row: rr, poly: ii },
                            }),
                        ),
                decreases rows - r,
            {
                if self.table.selectors[gate.selector][r] {
                    let mut i: usize = 0;
                    while i < gate.polys.len()
                        invariant
                            self.wf(),
                            rows == self.table.rows,
                            g < self.cs.gates@.len(),
                            gate == self.cs.gates@[g as int],
                            r < rows,
                            self.sel_at(self.cs.gates@[g as int].selector as int, r as int),
                            i <= gate.polys@.len(),
                            forall|j: int|
                                0 <= j < vs@.len() ==> self.gate_violation_genuine(
                                    #[trigger] vs@[j],
                                ),
                            forall|gg: usize, rr: usize, ii: usize|
                                gg < g && self.gate_unsat_at(gg as int, rr as int, ii as int)
                                    ==> #[trigger] vs@.contains(
                                    (Violation::ConstraintNotSatisfied {
                                        gate: gg,
                                        row: rr,
                                        poly: ii,
                                    }),
                                ),
                            forall|gg: usize, rr: usize, ii: usize|
                                gg < g && self.gate_unassigned_at(gg as int, rr as int, ii as int)
                                    ==> #[trigger] vs@.contains(
                                    (Violation::UnassignedCell {
                                        at: UnassignedAt::Gate { gate: gg, row: rr, poly: ii },
                                    }),
                                ),
                            forall|rr: usize, ii: usize|
                                rr < r && self.gate_unsat_at(g as int, rr as int, ii as int)
                                    ==> #[trigger] vs@.contains(
                                    (Violation::ConstraintNotSatisfied {
                                        gate: g,
                                        row: rr,
                                        poly: ii,
                                    }),
                                ),
                            forall|rr: usize, ii: usize|
                                rr < r && self.gate_unassigned_at(g as int, rr as int, ii as int)
                                    ==> #[trigger] vs@.contains(
                                    (Violation::UnassignedCell {
                                        at: UnassignedAt::Gate { gate: g, row: rr, poly: ii },
                                    }),
                                ),
                            forall|ii: usize|
                                ii < i && self.gate_unsat_at(g as int, r as int, ii as int)
                                    ==> #[trigger] vs@.contains(
                                    (Violation::ConstraintNotSatisfied {
                                        gate: g,
                                        row: r,
                                        poly: ii,
                                    }),
                                ),
                            forall|ii: usize|
                                ii < i && self.gate_unassigned_at(g as int, r as int, ii as int)
                                    ==> #[trigger] vs@.contains(
                                    (Violation::UnassignedCell {
                                        at: UnassignedAt::Gate { gate: g, row: r, poly: ii },
                                    }),
                                ),
                        decreases gate.polys@.len() - i,
                    {
                        proof {
                            assert(self.cs.gates@[g as int].wf(
                                self.num_advice(),
                                self.num_instance(),
                                self.cs.num_selectors as int,
                            ));
                            assert(expr_wf(
                                self.cs.gates@[g as int].polys@[i as int],
                                self.num_advice(),
                                self.num_instance(),
                                self.cs.num_selectors as int,
                            ));
                            assert(expr_rotations_ok(
                                self.cs.gates@[g as int].polys@[i as int],
                                r as int,
                                self.rows(),
                            ));
                        }
                        let v = self.eval_expr(&gate.polys[i], r);
                        match v {
                            Value::Unknown => {
                                let ghost old_vs = vs@;
                                vs.push(
                                    Violation::UnassignedCell {
                                        at: UnassignedAt::Gate { gate: g, row: r, poly: i },
                                    },
                                );
                                proof {
                                    lemma_push_keeps_contains(
                                        old_vs,
                                        Violation::UnassignedCell {
                                            at: UnassignedAt::Gate { gate: g, row: r, poly: i },
                                        },
                                    );
                                }
                            },
                            Value::Known(f) => {
                                if f.to_u64() != 0 {
                                    let ghost old_vs = vs@;
                                    vs.push(
                                        Violation::ConstraintNotSatisfied {
                                            gate: g,
                                            row: r,
                                            poly: i,
                                        },
                                    );
                                    proof {
                                        lemma_push_keeps_contains(
                                            old_vs,
                                            Violation::ConstraintNotSatisfied {
                                                gate: g,
                                                row: r,
                                                poly: i,
                                            },
                                        );
                                    }
                                }
                            },
                        }
                        i = i + 1;
                    }
                }
                r = r + 1;
            }
            g = g + 1;
        }
        vs
    }
}


impl Verifier {
    /// The violation is one the lookup phase emits, and it is genuine.
    pub open spec fn lookup_violation_genuine(self, v: Violation) -> bool {
        match v {
            Violation::LookupViolation { lookup, row } => self.lookup_missing_at(
                lookup as int,
                row as int,
            ),
            Violation::UnassignedCell { at } => match at {
                UnassignedAt::Lookup { lookup, row } => self.lookup_unassigned_at(
                    lookup as int,
                    row as int,
                ),
                _ => false,
            },
            _ => false,
        }
    }

    /// Whether `x` was ever assigned into table column `t`, at any row.
    fn table_column_contains(&self, t: usize, x: FieldElement) -> (b: bool)
        requires
            self.wf(),
            (t as int) < self.cs.num_table_columns as int,
        ensures
            b == self.table_contains(t as int, x.as_int()),
    {
        let rows = self.table.rows;
        let col = &self.table.tables[t];
        let mut r: usize = 0;
        while r < rows
            invariant
                self.wf(),
                rows == self.table.rows,
                (t as int) < self.cs.num_table_columns as int,
                col == self.table.tables@[t as int],
                r <= rows,
                forall|rr: int| 0 <= rr < r ==> #[trigger] self.table_at(t as int, rr) != Some(
                    x.as_int(),
                ),
            decreases rows - r,
        {
            match col[r] {
                Some(f) => {
                    if f.to_u64() == x.to_u64() {
                        proof {
                            assert(self.table_at(t as int, r as int) == Some(x.as_int()));
                        }
                        return true;
                    }
                },
                None => {},
            }
            r = r + 1;
        }
        false
    }

    /// Evaluates every lookup input at every row and reports every value
    /// that is absent from the lookup's table column, and every unassigned
    /// cell.
    fn check_lookups(&self) -> (vs: Vec<Violation>)
        requires
            self.wf(),
        ensures
            forall|j: int| 0 <= j < vs@.len() ==> self.lookup_violation_genuine(#[trigger] vs@[j]),
            forall|l: usize, row: usize|
                self.lookup_missing_at(l as int, row as int) ==> #[trigger] vs@.contains(
                    Violation::LookupViolation { lookup: l, row },
                ),
            forall|l: usize, row: usize|
                self.lookup_unassigned_at(l as int, row as int) ==> #[trigger] vs@.contains(
                    Violation::UnassignedCell { at: UnassignedAt::Lookup { lookup: l, row } },
                ),
    {
        let rows = self.table.rows;
        let mut vs: Vec<Violation> = Vec::new();
        let mut l: usize = 0;
        while l < self.cs.lookups.len()
            invariant
                self.wf(),
                rows == self.table.rows,
                l <= self.cs.lookups@.len(),
                forall|j: int|
                    0 <= j < vs@.len() ==> self.lookup_violation_genuine(#[trigger] vs@[j]),
                forall|ll: usize, rr: usize|
                    ll < l && self.lookup_missing_at(ll as int, rr as int)
                        ==> #[trigger] vs@.contains(
                        Violation::LookupViolation { lookup: ll, row: rr },
                    ),
                forall|ll: usize, rr: usize|
                    ll < l && self.lookup_unassigned_at(ll as int, rr as int)
                        ==> #[trigger] vs@.contains(
                        Violation::UnassignedCell {
                            at: UnassignedAt::Lookup { lookup: ll, row: rr },
                        },
                    ),
            decreases self.cs.lookups@.len() - l,
        {
            let mut r: usize = 0;
            while r < rows
                invariant
                    self.wf(),
                    rows == self.table.rows,
                    l < self.cs.lookups@.len(),
                    r <= rows,
                    forall|j: int|
                        0 <= j < vs@.len() ==> self.lookup_violation_genuine(#[trigger] vs@[j]),
                    forall|ll: usize, rr: usize|
                        ll < l && self.lookup_missing_at(ll as int, rr as int)
                            ==> #[trigger] vs@.contains(
                            Violation::LookupViolation { lookup: ll, row: rr },
                        ),
                    forall|ll: usize, rr: usize|
                        ll < l && self.lookup_unassigned_at(ll as int, rr as int)
                            ==> #[trigger] vs@.contains(
                            Violation::UnassignedCell {
                                at: UnassignedAt::Lookup { lookup: ll, row: rr },
                            },
                        ),
                    forall|rr: usize|
                        rr < r && self.lookup_missing_at(l as int, rr as int)
                            ==> #[trigger] vs@.contains(
                            Violation::LookupViolation { lookup: l, row: rr },
                        ),
                    forall|rr: usize|
                        rr < r && self.lookup_unassigned_at(l as int, rr as int)
                            ==> #[trigger] vs@.contains(
                            Violation::UnassignedCell {
                                at: UnassignedAt::Lookup { lookup: l, row: rr },
                            },
                        ),
                decreases rows - r,
            {
                proof {
                    assert(self.cs.lookups@[l as int].wf(
                        self.num_advice(),
                        self.num_instance(),
                        self.cs.num_selectors as int,
                        self.cs.num_table_columns as int,
                    ));
                }
                let input = &self.cs.lookups[l].input;
                let v = self.eval_expr(input, r);
                match v {
                    Value::Unknown => {
                        let ghost old_vs = vs@;
                        let viol = Violation::UnassignedCell {
                            at: UnassignedAt::Lookup { lookup: l, row: r },
                        };
                        vs.push(viol);
                        proof {
                            lemma_push_keeps_contains(old_vs, viol);
                        }
                    },
                    Value::Known(f) => {
                        if !self.table_column_contains(self.cs.lookups[l].table, f) {
                            let ghost old_vs = vs@;
                            let viol = Violation::LookupViolation { lookup: l, row: r };
                            vs.push(viol);
                            proof {
                                lemma_push_keeps_contains(old_vs, viol);
                            }
                        }
                    },
                }
                r = r + 1;
            }
            l = l + 1;
        }
        vs
    }
}


/// `col * rows + row` addresses one cell of a `cols`-column grid.
proof fn lemma_cell_id_bound(col: int, row: int, rows: int, cols: int)
    requires
        0 <= col < cols,
        0 <= row < rows,
    ensures
        0 <= col * rows + row < cols * rows,
{
    vstd::arithmetic::mul::lemma_mul_inequality(col + 1, cols, rows);
    vstd::arithmetic::mul::lemma_mul_is_distributive_add_other_way(rows, col, 1);
    vstd::arithmetic::mul::lemma_mul_nonnegative(col, rows);
}

/// Computes a cell identifier.
fn cell_id(col: usize, row: usize, rows: usize, cols: usize) -> (id: usize)
    requires
        col < cols,
        row < rows,
        cols * rows <= usize::MAX,
    ensures
        id as int == col * rows + row,
{
    proof {
        lemma_cell_id_bound(col as int, row as int, rows as int, cols as int);
    }
    col * rows + row
}

impl Verifier {
    /// The cell a valid identifier stands for.
    pub open spec fn cellref_of(self, id: int) -> CellRef {
        if id < self.num_advice() * self.rows() {
            CellRef::Advice {
                column: (id / self.rows()) as usize,
                row: (id % self.rows()) as usize,
            }
        } else {
            CellRef::Instance {
                column: (id / self.rows() - self.num_advice()) as usize,
                row: (id % self.rows()) as usize,
            }
        }
    }

    /// How a valid identifier decomposes into a column and a row.
    proof fn lemma_id_decomp(self, id: int)
        requires
            self.wf(),
            0 <= id < self.num_cells(),
        ensures
            0 <= id % self.rows() < self.rows(),
            0 <= id / self.rows(),
            id == (id / self.rows()) * self.rows() + id % self.rows(),
            id / self.rows() < self.num_advice() + self.num_instance(),
            (id / self.rows() < self.num_advice()) <==> (id < self.num_advice() * self.rows()),
            self.num_advice() + self.num_instance() <= usize::MAX,
    {
        let rows = self.rows();
        let na = self.num_advice();
        let ni = self.num_instance();
        vstd::arithmetic::div_mod::lemma_fundamental_div_mod(id, rows);
        vstd::arithmetic::div_mod::lemma_mod_division_less_than_divisor(id, rows);
        vstd::arithmetic::div_mod::lemma_div_pos_is_pos(id, rows);
        vstd::arithmetic::mul::lemma_mul_is_commutative(na + ni, rows);
        vstd::arithmetic::div_mod::lemma_multiply_divide_lt(id, rows, na + ni);
        vstd::arithmetic::mul::lemma_mul_is_commutative(id / rows, rows);
        if id < na * rows {
            vstd::arithmetic::mul::lemma_mul_is_commutative(na, rows);
            vstd::arithmetic::div_mod::lemma_multiply_divide_lt(id, rows, na);
        }
        if id / rows < na {
            lemma_cell_id_bound(id / rows, id % rows, rows, na);
        }
        vstd::arithmetic::mul::lemma_mul_inequality(1, rows, na + ni);
        vstd::arithmetic::mul::lemma_mul_is_commutative(na + ni, rows);
    }

    /// A valid identifier's cell is well formed, stands for the same
    /// identifier, and carries the identifier's value.
    pub proof fn lemma_cellref_of(self, id: int)
        requires
            self.wf(),
            0 <= id < self.num_cells(),
        ensures
            self.cellref_wf(self.cellref_of(id)),
            self.id_of(self.cellref_of(id)) == id,
            self.cellref_val(self.cellref_of(id)) == self.id_val(id),
            (self.cellref_of(id) is Advice) <==> id < self.num_advice() * self.rows(),
    {
        self.lemma_id_decomp(id);
        vstd::arithmetic::mul::lemma_mul_is_commutative(id / self.rows(), self.rows());
        if !(id < self.num_advice() * self.rows()) {
            vstd::arithmetic::mul::lemma_mul_is_distributive_add_other_way(
                self.rows(),
                self.num_advice(),
                id / self.rows() - self.num_advice(),
            );
        }
    }

    /// Every declared pair addresses valid identifiers, and its first
    /// member is always an advice cell.
    pub proof fn lemma_pair_ids_wf(self)
        requires
            self.wf(),
        ensures
            forall|i: int|
                0 <= i < self.pair_ids().len() ==> (#[trigger] self.pair_ids()[i]).0
                    < self.num_cells() && self.pair_ids()[i].1 < self.num_cells()
                    && self.pair_ids()[i].0 < self.num_advice() * self.rows(),
    {
        let rows = self.rows();
        let na = self.num_advice();
        let ni = self.num_instance();
        let nc = self.table.copies@.len() as int;
        assert forall|i: int| 0 <= i < self.pair_ids().len() implies (#[trigger] self.pair_ids()[i]).0
            < self.num_cells() && self.pair_ids()[i].1 < self.num_cells()
            && self.pair_ids()[i].0 < self.num_advice() * self.rows() by {
            vstd::arithmetic::mul::lemma_mul_inequality(na, na + ni, rows);
            if i < nc {
                let p = self.table.copies@[i];
                assert(self.table.copy_wf(p));
                lemma_cell_id_bound(p.a.column as int, p.a.row as int, rows, na);
                lemma_cell_id_bound(p.b.column as int, p.b.row as int, rows, na);
            } else {
                let b = self.table.bindings@[i - nc];
                assert(self.table.binding_wf(b));
                lemma_cell_id_bound(b.cell.column as int, b.cell.row as int, rows, na);
                lemma_cell_id_bound(na + b.column as int, b.row as int, rows, na + ni);
            }
        }
    }

    /// The value of the cell with identifier `id`, instance padding
    /// included.
    fn id_value(&self, id: usize) -> (v: Value)
        requires
            self.wf(),
            (id as int) < self.num_cells(),
        ensures
            v.as_opt() == self.id_val(id as int),
    {
        proof {
            self.lemma_id_decomp(id as int);
        }
        let rows = self.table.rows;
        let col = id / rows;
        let row = id % rows;
        if col < self.table.advice.len() {
            self.table.advice[col][row]
        } else {
            let icol = col - self.table.advice.len();
            let ivec = &self.instances[icol];
            if row < ivec.len() {
                Value::Known(ivec[row])
            } else {
                Value::Known(FieldElement::zero())
            }
        }
    }

    /// The cell the identifier `id` stands for.
    fn id_cellref(&self, id: usize) -> (cr: CellRef)
        requires
            self.wf(),
            (id as int) < self.num_cells(),
        ensures
            cr == self.cellref_of(id as int),
    {
        proof {
            self.lemma_id_decomp(id as int);
        }
        let rows = self.table.rows;
        let col = id / rows;
        let row = id % rows;
        if col < self.table.advice.len() {
            CellRef::Advice { column: col, row }
        } else {
            CellRef::Instance { column: col - self.table.advice.len(), row }
        }
    }

    /// The diagnostic for two disagreeing related cells: a copy violation
    /// between advice cells, a public-input mismatch when an instance cell
    /// is involved.
    pub open spec fn mismatch_violation(self, x: int, y: int) -> Violation {
        if self.cellref_of(x) is Advice && self.cellref_of(y) is Advice {
            Violation::CopyConstraintViolation { a: self.cellref_of(x), b: self.cellref_of(y) }
        } else {
            Violation::PublicInputMismatch { a: self.cellref_of(x), b: self.cellref_of(y) }
        }
    }

    /// The violation is one the copy phase emits, and it is genuine.
    pub open spec fn copy_violation_genuine(self, v: Violation) -> bool {
        match v {
            Violation::CopyConstraintViolation { a, b } => self.copy_mismatch(a, b)
                && a is Advice && b is Advice,
            Violation::PublicInputMismatch { a, b } => self.copy_mismatch(a, b) && (a is Instance
                || b is Instance),
            Violation::UnassignedCell { at } => match at {
                UnassignedAt::CopyClass { cell } => self.unassigned_class_at(cell),
                _ => false,
            },
            _ => false,
        }
    }
}


impl Verifier {
    /// Builds equivalence classes over every declared copy pair (instance
    /// bindings included), then reports: one mismatch per assigned member
    /// that differs from its class's first assigned member, and one
    /// unassigned-cell report per class that was copy-constrained yet
    /// never assigned.
    /// The declared copy pairs as identifier pairs: advice copies, then
    /// instance bindings.
    fn collect_pairs(&self) -> (pairs: Vec<(usize, usize)>)
        requires
            self.wf(),
        ensures
            pairs@.len() == self.pair_ids().len(),
            forall|j: int|
                0 <= j < pairs@.len() ==> ((#[trigger] pairs@[j]).0 as nat, pairs@[j].1 as nat)
                    == self.pair_ids()[j] && (pairs@[j].0 as int) < self.num_cells() && (
                pairs@[j].1 as int) < self.num_cells(),
    {
        let rows = self.table.rows;
        let na = self.table.advice.len();
        let ni = self.instances.len();
        proof {
            vstd::arithmetic::mul::lemma_mul_inequality(1, rows as int, na as int + ni as int);
            vstd::arithmetic::mul::lemma_mul_is_commutative(na as int + ni as int, rows as int);
            self.lemma_pair_ids_wf();
        }
        let cols = na + ni;
        let n = cols * rows;
        let mut pairs: Vec<(usize, usize)> = Vec::new();
        let mut i: usize = 0;
        while i < self.table.copies.len()
            invariant
                self.wf(),
                rows == self.table.rows,
                na as int == self.num_advice(),
                ni as int == self.num_instance(),
                cols == na + ni,
                n as int == self.num_cells(),
                i <= self.table.copies@.len(),
                pairs@.len() == i,
                forall|j: int|
                    0 <= j < i ==> ((#[trigger] pairs@[j]).0 as nat, pairs@[j].1 as nat)
                        == self.pair_ids()[j] && pairs@[j].0 < n && pairs@[j].1 < n,
            decreases self.table.copies@.len() - i,
        {
            let p = self.table.copies[i];
            proof {
                assert(self.table.copy_wf(self.table.copies@[i as int]));
                self.lemma_pair_ids_wf();
                lemma_cell_id_bound(p.a.column as int, p.a.row as int, rows as int, cols as int);
                lemma_cell_id_bound(p.b.column as int, p.b.row as int, rows as int, cols as int);
            }
            let ida = cell_id(p.a.column, p.a.row, rows, cols);
            let idb = cell_id(p.b.column, p.b.row, rows, cols);
            let ghost old_pairs = pairs@;
            pairs.push((ida, idb));
            i = i + 1;
        }
        let mut i: usize = 0;
        while i < self.table.bindings.len()
            invariant
                self.wf(),
                rows == self.table.rows,
                na as int == self.num_advice(),
                ni as int == self.num_instance(),
                cols == na + ni,
                n as int == self.num_cells(),
                i <= self.table.bindings@.len(),
                pairs@.len() == self.table.copies@.len() + i,
                forall|j: int|
                    0 <= j < pairs@.len() ==> ((#[trigger] pairs@[j]).0 as nat, pairs@[j].1 as nat)
                        == self.pair_ids()[j] && pairs@[j].0 < n && pairs@[j].1 < n,
            decreases self.table.bindings@.len() - i,
        {
            let b = self.table.bindings[i];
            proof {
                assert(self.table.binding_wf(self.table.bindings@[i as int]));
                self.lemma_pair_ids_wf();
                lemma_cell_id_bound(
                    b.cell.column as int,
                    b.cell.row as int,
                    rows as int,
                    cols as int,
                );
                lemma_cell_id_bound(na + b.column as int, b.row as int, rows as int, cols as int);
            }
            let ida = cell_id(b.cell.column, b.cell.row, rows, cols);
            let idb = cell_id(na + b.column, b.row, rows, cols);
            pairs.push((ida, idb));
            i = i + 1;
        }
        pairs
    }

    /// First pass of the copy check: remembers each class's first
    /// assigned member in `ref_of` (with `n` as the "none" sentinel) and
    /// reports every later assigned member that disagrees with it.
    #[verifier::rlimit(60)]
    fn scan_classes(&self, labels: &Vec<usize>, n: usize) -> (res: (Vec<usize>, Vec<Violation>))
        requires
            self.wf(),
            n as int == self.num_cells(),
            labels@.len() == n,
            forall|x: int| 0 <= x < n ==> #[trigger] labels@[x] < n,
            forall|x: int, y: int|
                0 <= x < n && 0 <= y < n ==> ((#[trigger] labels@[x] == #[trigger] labels@[y])
                    <==> related(self.pair_ids(), x as nat, y as nat)),
        ensures
            ({
                let (ref_of, vs) = res;
                &&& ref_of@.len() == n
                &&& forall|l: int| 0 <= l < n ==> #[trigger] ref_of@[l] <= n
                &&& forall|l: int|
                    0 <= l < n && #[trigger] ref_of@[l] < n ==> (labels@[ref_of@[l] as int] as int)
                        == l && self.id_val(ref_of@[l] as int) is Some
                &&& forall|j: int|
                    0 <= j < n && #[trigger] self.id_val(j) is Some ==> ref_of@[labels@[j] as int]
                        < n
                &&& forall|j: int|
                    0 <= j < n && #[trigger] self.id_val(j) is Some && self.id_val(
                        ref_of@[labels@[j] as int] as int,
                    ) != self.id_val(j) ==> vs@.contains(
                        self.mismatch_violation(ref_of@[labels@[j] as int] as int, j),
                    )
                &&& forall|j: int|
                    0 <= j < vs@.len() ==> self.copy_violation_genuine(#[trigger] vs@[j])
            }),
    {
        let mut ref_of: Vec<usize> = vec![n; n];
        let mut vs: Vec<Violation> = Vec::new();
        let mut id: usize = 0;
        while id < n
            invariant
                self.wf(),
                n as int == self.num_cells(),
                labels@.len() == n,
                forall|x: int| 0 <= x < n ==> #[trigger] labels@[x] < n,
                forall|x: int, y: int|
                    0 <= x < n && 0 <= y < n ==> ((#[trigger] labels@[x] == #[trigger] labels@[y])
                        <==> related(self.pair_ids(), x as nat, y as nat)),
                ref_of@.len() == n,
                id <= n,
                forall|l: int| 0 <= l < n ==> #[trigger] ref_of@[l] <= n,
                forall|l: int|
                    0 <= l < n && #[trigger] ref_of@[l] < n ==> (labels@[ref_of@[l] as int] as int)
                        == l && self.id_val(ref_of@[l] as int) is Some && ref_of@[l] < id,
                forall|j: int|
                    0 <= j < id && #[trigger] self.id_val(j) is Some ==> ref_of@[labels@[j] as int]
                        < n,
                forall|j: int|
                    0 <= j < id && #[trigger] self.id_val(j) is Some && self.id_val(
                        ref_of@[labels@[j] as int] as int,
                    ) != self.id_val(j) ==> vs@.contains(
                        self.mismatch_violation(ref_of@[labels@[j] as int] as int, j),
                    ),
                forall|j: int|
                    0 <= j < vs@.len() ==> self.copy_violation_genuine(#[trigger] vs@[j]),
            decreases n - id,
        {
            let l = labels[id];
            let v = self.id_value(id);
            match v {
                Value::Unknown => {},
                Value::Known(f) => {
                    let r = ref_of[l];
                    if r == n {
                        ref_of[l] = id;
                    } else {
                        let rv = self.id_value(r);
                        match rv {
                            Value::Known(rf) => {
                                if rf.to_u64() != f.to_u64() {
                                    let ca = self.id_cellref(r);
                                    let cb = self.id_cellref(id);
                                    let viol = match (ca, cb) {
                                        (
                                            CellRef::Advice { column: _, row: _ },
                                            CellRef::Advice { column: _, row: _ },
                                        ) => Violation::CopyConstraintViolation { a: ca, b: cb },
                                        _ => Violation::PublicInputMismatch { a: ca, b: cb },
                                    };
                                    proof {
                                        self.lemma_cellref_of(r as int);
                                        self.lemma_cellref_of(id as int);
                                        assert(related(self.pair_ids(), r as nat, id as nat));
                                        assert(viol == self.mismatch_violation(
                                            r as int,
                                            id as int,
                                        ));
                                        assert(self.copy_mismatch(ca, cb));
                                        lemma_push_keeps_contains(vs@, viol);
                                    }
                                    vs.push(viol);
                                }
                            },
                            Value::Unknown => {
                                proof {
                                    assert(false);
                                }
                            },
                        }
                    }
                },
            }
            id = id + 1;
        }
        (ref_of, vs)
    }

    /// Second pass of the copy check: one unassigned-cell report per
    /// copy-constrained class with no assigned member.
    #[verifier::rlimit(60)]
    fn report_unassigned_classes(
        &self,
        pairs: &Vec<(usize, usize)>,
        labels: &Vec<usize>,
        ref_of: &Vec<usize>,
        n: usize,
    ) -> (vs: Vec<Violation>)
        requires
            self.wf(),
            n as int == self.num_cells(),
            labels@.len() == n,
            forall|x: int| 0 <= x < n ==> #[trigger] labels@[x] < n,
            forall|x: int, y: int|
                0 <= x < n && 0 <= y < n ==> ((#[trigger] labels@[x] == #[trigger] labels@[y])
                    <==> related(self.pair_ids(), x as nat, y as nat)),
            pairs@.len() == self.pair_ids().len(),
            forall|j: int|
                0 <= j < pairs@.len() ==> ((#[trigger] pairs@[j]).0 as nat, pairs@[j].1 as nat)
                    == self.pair_ids()[j] && pairs@[j].0 < n && pairs@[j].1 < n,
            ref_of@.len() == n,
            forall|l: int| 0 <= l < n ==> #[trigger] ref_of@[l] <= n,
            forall|l: int|
                0 <= l < n && #[trigger] ref_of@[l] < n ==> (labels@[ref_of@[l] as int] as int)
                    == l && self.id_val(ref_of@[l] as int) is Some,
            forall|j: int|
                0 <= j < n && #[trigger] self.id_val(j) is Some ==> ref_of@[labels@[j] as int] < n,
        ensures
            forall|j: int| 0 <= j < vs@.len() ==> self.copy_violation_genuine(#[trigger] vs@[j]),
            forall|tt: int|
                0 <= tt < pairs@.len() && #[trigger] ref_of@[labels@[pairs@[tt].0 as int] as int]
                    == n ==> has_unassigned_report(vs@),
    {
        let mut vs: Vec<Violation> = Vec::new();
        let mut done: Vec<bool> = vec![false; n];
        let mut t: usize = 0;
        while t < pairs.len()
            invariant
                self.wf(),
                n as int == self.num_cells(),
                labels@.len() == n,
                forall|x: int| 0 <= x < n ==> #[trigger] labels@[x] < n,
                forall|x: int, y: int|
                    0 <= x < n && 0 <= y < n ==> ((#[trigger] labels@[x] == #[trigger] labels@[y])
                        <==> related(self.pair_ids(), x as nat, y as nat)),
                pairs@.len() == self.pair_ids().len(),
                forall|j: int|
                    0 <= j < pairs@.len() ==> ((#[trigger] pairs@[j]).0 as nat, pairs@[j].1 as nat)
                        == self.pair_ids()[j] && pairs@[j].0 < n && pairs@[j].1 < n,
                ref_of@.len() == n,
                forall|l: int| 0 <= l < n ==> #[trigger] ref_of@[l] <= n,
                forall|l: int|
                    0 <= l < n && #[trigger] ref_of@[l] < n ==> (labels@[ref_of@[l] as int] as int)
                        == l && self.id_val(ref_of@[l] as int) is Some,
                forall|j: int|
                    0 <= j < n && #[trigger] self.id_val(j) is Some ==> ref_of@[labels@[j] as int]
                        < n,
                done@.len() == n,
                t <= pairs@.len(),
                forall|l: int| 0 <= l < n && #[trigger] done@[l] ==> has_unassigned_report(vs@),
                forall|tt: int|
                    0 <= tt < t && #[trigger] ref_of@[labels@[pairs@[tt].0 as int] as int] == n
                        ==> has_unassigned_report(vs@),
                forall|j: int|
                    0 <= j < vs@.len() ==> self.copy_violation_genuine(#[trigger] vs@[j]),
            decreases pairs@.len() - t,
        {
            let a0 = pairs[t].0;
            let l = labels[a0];
            if ref_of[l] == n && !done[l] {
                let c = self.id_cellref(a0);
                proof {
                    self.lemma_cellref_of(a0 as int);
                    assert((self.pair_ids()[t as int]).0 == a0 as nat);
                    assert forall|z: nat|
                        #[trigger] related(self.pair_ids(), a0 as nat, z) implies self.id_val(
                        z as int,
                    ) is None by {
                        self.lemma_pair_ids_wf();
                        crate::permutation::lemma_related_in_domain(
                            self.pair_ids(),
                            n as nat,
                            a0 as nat,
                            z,
                        );
                        if z == a0 as nat {
                            if self.id_val(a0 as int) is Some {
                                assert(ref_of@[labels@[a0 as int] as int] < n);
                            }
                        } else {
                            assert(z < n);
                            assert(labels@[a0 as int] == labels@[z as int]);
                            if self.id_val(z as int) is Some {
                                assert(ref_of@[labels@[z as int] as int] < n);
                            }
                        }
                    }
                    assert(self.unassigned_class_at(self.cellref_of(a0 as int)));
                    lemma_push_keeps_contains(
                        vs@,
                        Violation::UnassignedCell {
                            at: UnassignedAt::CopyClass { cell: self.cellref_of(a0 as int) },
                        },
                    );
                    if has_unassigned_report(vs@) {
                        lemma_report_push(
                            vs@,
                            Violation::UnassignedCell {
                                at: UnassignedAt::CopyClass { cell: self.cellref_of(a0 as int) },
                            },
                        );
                    }
                }
                let ghost old_vs = vs@;
                vs.push(Violation::UnassignedCell { at: UnassignedAt::CopyClass { cell: c } });
                proof {
                    assert(vs@[old_vs.len() as int] matches Violation::UnassignedCell {
                        at: UnassignedAt::CopyClass { .. },
                    });
                    assert(has_unassigned_report(vs@));
                }
                done[l] = true;
            }
            t = t + 1;
        }
        vs
    }

    /// Builds equivalence classes over every declared copy pair (instance
    /// bindings included), then reports: one mismatch per assigned member
    /// that differs from its class's first assigned member, and one
    /// unassigned-cell report per class that was copy-constrained yet
    /// never assigned.
    #[verifier::rlimit(100)]
    fn check_copies(&self) -> (vs: Vec<Violation>)
        requires
            self.wf(),
        ensures
            forall|j: int| 0 <= j < vs@.len() ==> self.copy_violation_genuine(#[trigger] vs@[j]),
            !self.copy_values_ok() ==> exists|j: int|
                0 <= j < vs@.len() && ((#[trigger] vs@[j]) is CopyConstraintViolation || vs@[j]
                    is PublicInputMismatch),
            !self.copy_assigned_ok() ==> has_unassigned_report(vs@),
    {
        let rows = self.table.rows;
        let na = self.table.advice.len();
        let ni = self.instances.len();
        proof {
            vstd::arithmetic::mul::lemma_mul_inequality(1, rows as int, na as int + ni as int);
            vstd::arithmetic::mul::lemma_mul_is_commutative(na as int + ni as int, rows as int);
            self.lemma_pair_ids_wf();
        }
        let cols = na + ni;
        let n = cols * rows;
        let pairs = self.collect_pairs();
        proof {
            assert(crate::permutation::pairs_view(pairs@) =~= self.pair_ids());
        }

        let labels = crate::permutation::build_classes(&pairs, n);
        let (ref_of, mut vs) = self.scan_classes(&labels, n);
        let ghost vs1 = vs@;
        let mut vs2 = self.report_unassigned_classes(&pairs, &labels, &ref_of, n);
        let ghost vs2g = vs2@;
        vs.append(&mut vs2);
        proof {
            assert(vs@ == vs1 + vs2g);
            assert forall|j: int| 0 <= j < vs@.len() implies self.copy_violation_genuine(
                #[trigger] vs@[j],
            ) by {
                if j < vs1.len() {
                    assert(vs@[j] == vs1[j]);
                } else {
                    assert(vs@[j] == vs2g[j - vs1.len()]);
                }
            }
            if !self.copy_values_ok() {
                self.lemma_values_completeness(labels@, ref_of@, vs1, n as int);
                let j = choose|j: int|
                    0 <= j < vs1.len() && ((#[trigger] vs1[j]) is CopyConstraintViolation || vs1[j]
                        is PublicInputMismatch);
                assert(vs@[j] == vs1[j]);
            }
            if !self.copy_assigned_ok() {
                self.lemma_assigned_completeness(pairs@, labels@, ref_of@, vs2g, n as int);
                let j = choose|j: int|
                    0 <= j < vs2g.len() && (#[trigger] vs2g[j]) matches Violation::UnassignedCell {
                        at: UnassignedAt::CopyClass { .. },
                    };
                assert(vs@[vs1.len() + j] == vs2g[j]);
                assert(has_unassigned_report(vs@));
            }
        }
        vs
    }

    /// If some class disagrees, the first scan reported a mismatch.
    #[verifier::rlimit(100)]
    proof fn lemma_values_completeness(
        self,
        labels: Seq<usize>,
        ref_of: Seq<usize>,
        vs1: Seq<Violation>,
        n: int,
    )
        requires
            self.wf(),
            n == self.num_cells(),
            labels.len() == n,
            forall|x: int| 0 <= x < n ==> #[trigger] labels[x] < n,
            forall|x: int, y: int|
                0 <= x < n && 0 <= y < n ==> ((#[trigger] labels[x] == #[trigger] labels[y])
                    <==> related(self.pair_ids(), x as nat, y as nat)),
            ref_of.len() == n,
            forall|l: int| 0 <= l < n ==> #[trigger] ref_of[l] <= n,
            forall|l: int|
                0 <= l < n && #[trigger] ref_of[l] < n ==> (labels[ref_of[l] as int] as int) == l
                    && self.id_val(ref_of[l] as int) is Some,
            forall|j: int|
                0 <= j < n && #[trigger] self.id_val(j) is Some ==> ref_of[labels[j] as int] < n,
            forall|j: int|
                0 <= j < n && #[trigger] self.id_val(j) is Some && self.id_val(
                    ref_of[labels[j] as int] as int,
                ) != self.id_val(j) ==> vs1.contains(
                    self.mismatch_violation(ref_of[labels[j] as int] as int, j),
                ),
            !self.copy_values_ok(),
        ensures
            exists|j: int|
                0 <= j < vs1.len() && ((#[trigger] vs1[j]) is CopyConstraintViolation || vs1[j]
                    is PublicInputMismatch),
    {
        let (x, y) = choose|x: nat, y: nat|
            related(self.pair_ids(), x, y) && !self.ids_agree(x, y);
        self.lemma_pair_ids_wf();
        crate::permutation::lemma_related_in_domain(self.pair_ids(), n as nat, x, y);
        crate::permutation::lemma_related_sym(self.pair_ids(), x, y);
        crate::permutation::lemma_related_in_domain(self.pair_ids(), n as nat, y, x);
        assert(x != y);
        assert(x < n && y < n);
        assert(labels[x as int] == labels[y as int]);
        let l = labels[x as int] as int;
        let rid = ref_of[l] as int;
        assert(self.id_val(x as int) is Some);
        assert(self.id_val(y as int) is Some);
        assert(rid < n);
        assert(self.id_val(rid) is Some);
        if self.id_val(x as int) != self.id_val(rid) {
            assert(vs1.contains(self.mismatch_violation(rid, x as int)));
            let j = choose|j: int|
                0 <= j < vs1.len() && vs1[j] == self.mismatch_violation(rid, x as int);
            assert(vs1[j] is CopyConstraintViolation || vs1[j] is PublicInputMismatch);
        } else {
            assert(self.id_val(y as int) != self.id_val(rid));
            assert(vs1.contains(self.mismatch_violation(rid, y as int)));
            let j = choose|j: int|
                0 <= j < vs1.len() && vs1[j] == self.mismatch_violation(rid, y as int);
            assert(vs1[j] is CopyConstraintViolation || vs1[j] is PublicInputMismatch);
        }
    }

    /// If some copy-constrained class is wholly unassigned, the second
    /// pass reported it.
    #[verifier::rlimit(100)]
    proof fn lemma_assigned_completeness(
        self,
        pairs: Seq<(usize, usize)>,
        labels: Seq<usize>,
        ref_of: Seq<usize>,
        vs2: Seq<Violation>,
        n: int,
    )
        requires
            self.wf(),
            n == self.num_cells(),
            labels.len() == n,
            forall|x: int| 0 <= x < n ==> #[trigger] labels[x] < n,
            forall|x: int, y: int|
                0 <= x < n && 0 <= y < n ==> ((#[trigger] labels[x] == #[trigger] labels[y])
                    <==> related(self.pair_ids(), x as nat, y as nat)),
            pairs.len() == self.pair_ids().len(),
            forall|j: int|
                0 <= j < pairs.len() ==> ((#[trigger] pairs[j]).0 as nat, pairs[j].1 as nat)
                    == self.pair_ids()[j] && pairs[j].0 < n && pairs[j].1 < n,
            ref_of.len() == n,
            forall|l: int| 0 <= l < n ==> #[trigger] ref_of[l] <= n,
            forall|l: int|
                0 <= l < n && #[trigger] ref_of[l] < n ==> (labels[ref_of[l] as int] as int) == l
                    && self.id_val(ref_of[l] as int) is Some,
            forall|tt: int|
                0 <= tt < pairs.len() && #[trigger] ref_of[labels[pairs[tt].0 as int] as int] == n
                    ==> has_unassigned_report(vs2),
            !self.copy_assigned_ok(),
        ensures
            has_unassigned_report(vs2),
    {
        let i = choose|i: int|
            0 <= i < self.pair_ids().len() && !(#[trigger] self.pair_reaches_value(i));
        self.lemma_pair_ids_wf();
        let a0 = self.pair_ids()[i].0;
        assert(a0 == pairs[i].0 as nat);
        let l = labels[a0 as int] as int;
        if ref_of[l] < n {
            let rid = ref_of[l];
            assert(labels[a0 as int] == labels[rid as int]);
            assert(related(self.pair_ids(), a0, rid as nat));
            assert(self.id_val(rid as int) is Some);
            assert(self.pair_reaches_value(i));
        }
        assert(ref_of[labels[pairs[i].0 as int] as int] == n);
    }
}

/// Containment survives concatenation on the right.
proof fn lemma_contains_prefix<T>(s1: Seq<T>, s2: Seq<T>, x: T)
    requires
        s1.contains(x),
    ensures
        (s1 + s2).contains(x),
{
    let j = choose|j: int| 0 <= j < s1.len() && s1[j] == x;
    assert((s1 + s2)[j] == x);
}

/// Containment survives concatenation on the left.
proof fn lemma_contains_suffix<T>(s1: Seq<T>, s2: Seq<T>, x: T)
    requires
        s2.contains(x),
    ensures
        (s1 + s2).contains(x),
{
    let j = choose|j: int| 0 <= j < s2.len() && s2[j] == x;
    assert((s1 + s2)[s1.len() + j] == x);
}

impl Verifier {
    /// The violation really holds of this run, whatever phase found it.
    pub open spec fn violation_genuine(self, v: Violation) -> bool {
        ||| self.gate_violation_genuine(v)
        ||| self.copy_violation_genuine(v)
        ||| self.lookup_violation_genuine(v)
    }

    /// A valid cell address round-trips through its identifier.
    pub proof fn lemma_id_of_val(self, cr: CellRef)
        requires
            self.wf(),
            self.cellref_wf(cr),
        ensures
            0 <= self.id_of(cr) < self.num_cells(),
            self.id_val(self.id_of(cr)) == self.cellref_val(cr),
    {
        let rows = self.rows();
        let na = self.num_advice();
        let ni = self.num_instance();
        match cr {
            CellRef::Advice { column, row } => {
                lemma_cell_id_bound(column as int, row as int, rows, na);
                vstd::arithmetic::mul::lemma_mul_inequality(na, na + ni, rows);
                let id = column as int * rows + row as int;
                vstd::arithmetic::div_mod::lemma_fundamental_div_mod_converse(
                    id,
                    rows,
                    column as int,
                    row as int,
                );
            },
            CellRef::Instance { column, row } => {
                lemma_cell_id_bound(na + column as int, row as int, rows, na + ni);
                let id = (na + column as int) * rows + row as int;
                vstd::arithmetic::div_mod::lemma_fundamental_div_mod_converse(
                    id,
                    rows,
                    na + column as int,
                    row as int,
                );
                if id < na * rows {
                    vstd::arithmetic::mul::lemma_mul_inequality(na, na + column as int, rows);
                }
            },
        }
    }

    /// A genuine violation refutes the run: the witness does not satisfy
    /// the circuit.
    pub proof fn lemma_genuine_refutes(self, v: Violation)
        requires
            self.wf(),
            self.violation_genuine(v),
        ensures
            !self.ok(),
    {
        if self.gate_violation_genuine(v) {
            match v {
                Violation::ConstraintNotSatisfied { gate, row, poly } => {
                    if self.gates_ok() {
                        assert(self.eval(
                            self.cs.gates@[gate as int].polys@[poly as int],
                            row as int,
                        ) == Some(0int));
                    }
                },
                Violation::UnassignedCell { at } => {
                    match at {
                        UnassignedAt::Gate { gate, row, poly } => {
                            if self.gates_ok() {
                                assert(self.eval(
                                    self.cs.gates@[gate as int].polys@[poly as int],
                                    row as int,
                                ) == Some(0int));
                            }
                        },
                        _ => {},
                    }
                },
                _ => {},
            }
        } else if self.copy_violation_genuine(v) {
            match v {
                Violation::CopyConstraintViolation { a, b } => {
                    self.lemma_id_of_val(a);
                    self.lemma_id_of_val(b);
                    if self.copy_values_ok() {
                        assert(self.ids_agree(self.id_of(a) as nat, self.id_of(b) as nat));
                    }
                },
                Violation::PublicInputMismatch { a, b } => {
                    self.lemma_id_of_val(a);
                    self.lemma_id_of_val(b);
                    if self.copy_values_ok() {
                        assert(self.ids_agree(self.id_of(a) as nat, self.id_of(b) as nat));
                    }
                },
                Violation::UnassignedCell { at } => {
                    match at {
                        UnassignedAt::CopyClass { cell } => {
                            if self.copy_assigned_ok() {
                                let i = choose|i: int|
                                    0 <= i < self.pair_ids().len() && ((
                                    #[trigger] self.pair_ids()[i]).0 == self.id_of(cell) as nat
                                        || self.pair_ids()[i].1 == self.id_of(cell) as nat);
                                assert(self.pair_reaches_value(i));
                                let z = choose|z: nat|
                                    related(self.pair_ids(), self.pair_ids()[i].0, z)
                                        && self.id_val(z as int) is Some;
                                if self.pair_ids()[i].0 == self.id_of(cell) as nat {
                                    assert(related(self.pair_ids(), self.id_of(cell) as nat, z));
                                } else {
                                    crate::permutation::lemma_related_step(self.pair_ids(), i);
                                    crate::permutation::lemma_related_trans(
                                        self.pair_ids(),
                                        self.pair_ids()[i].1,
                                        self.pair_ids()[i].0,
                                        z,
                                    );
                                    assert(related(self.pair_ids(), self.id_of(cell) as nat, z));
                                }
                            }
                        },
                        _ => {},
                    }
                },
                _ => {},
            }
        } else {
            match v {
                Violation::LookupViolation { lookup, row } => {
                    if self.lookups_ok() {
                        assert(self.lookup_sat_at(lookup as int, row as int));
                    }
                },
                Violation::UnassignedCell { at } => {
                    match at {
                        UnassignedAt::Lookup { lookup, row } => {
                            if self.lookups_ok() {
                                assert(self.lookup_sat_at(lookup as int, row as int));
                            }
                        },
                        _ => {},
                    }
                },
                _ => {},
            }
        }
    }

    /// Decides the run: evaluates every gate at every active row, checks
    /// every copy-constraint class, and checks every lookup at every row.
    /// Success means exactly that all three checks hold; otherwise the
    /// complete list of violations comes back, none of them spurious.
    #[verifier::rlimit(100)]
    pub fn verify(&self) -> (r: Result<(), Vec<Violation>>)
        requires
            self.wf(),
        ensures
            r is Ok <==> self.ok(),
            match r {
                Ok(()) => true,
                Err(vs) => {
                    &&& vs@.len() > 0
                    &&& forall|j: int|
                        0 <= j < vs@.len() ==> self.violation_genuine(#[trigger] vs@[j])
                    &&& forall|g: usize, row: usize, i: usize|
                        self.gate_unsat_at(g as int, row as int, i as int)
                            ==> #[trigger] vs@.contains(
                            Violation::ConstraintNotSatisfied { gate: g, row, poly: i },
                        )
                    &&& forall|g: usize, row: usize, i: usize|
                        self.gate_unassigned_at(g as int, row as int, i as int)
                            ==> #[trigger] vs@.contains(
                            Violation::UnassignedCell {
                                at: UnassignedAt::Gate { gate: g, row, poly: i },
                            },
                        )
                    &&& forall|l: usize, row: usize|
                        self.lookup_missing_at(l as int, row as int) ==> #[trigger] vs@.contains(
                            Violation::LookupViolation { lookup: l, row },
                        )
                    &&& forall|l: usize, row: usize|
                        self.lookup_unassigned_at(l as int, row as int) ==> #[trigger] vs@.contains(
                            Violation::UnassignedCell {
                                at: UnassignedAt::Lookup { lookup: l, row },
                            },
                        )
                    &&& (!self.copy_values_ok() ==> exists|j: int|
                        0 <= j < vs@.len() && ((#[trigger] vs@[j]) is CopyConstraintViolation
                            || vs@[j] is PublicInputMismatch))
                    &&& (!self.copy_assigned_ok() ==> has_unassigned_report(vs@))
                },
            },
    {
        let mut vs = self.check_gates();
        let ghost gvs = vs@;
        let mut cvs = self.check_copies();
        let ghost cg = cvs@;
        vs.append(&mut cvs);
        let ghost gc = vs@;
        let mut lvs = self.check_lookups();
        let ghost lg = lvs@;
        vs.append(&mut lvs);
        proof {
            assert(gc == gvs + cg);
            assert(vs@ == gc + lg);
            assert forall|j: int| 0 <= j < vs@.len() implies self.violation_genuine(
                #[trigger] vs@[j],
            ) by {
                if j < gvs.len() {
                    assert(vs@[j] == gvs[j]);
                } else if j < gc.len() {
                    assert(vs@[j] == cg[j - gvs.len()]);
                } else {
                    assert(vs@[j] == lg[j - gc.len()]);
                }
            }
            assert forall|g: usize, row: usize, i: usize|
                self.gate_unsat_at(g as int, row as int, i as int) implies #[trigger] vs@.contains(
                Violation::ConstraintNotSatisfied { gate: g, row, poly: i },
            ) by {
                lemma_contains_prefix(
                    gvs,
                    cg,
                    Violation::ConstraintNotSatisfied { gate: g, row, poly: i },
                );
                lemma_contains_prefix(
                    gc,
                    lg,
                    Violation::ConstraintNotSatisfied { gate: g, row, poly: i },
                );
            }
            assert forall|g: usize, row: usize, i: usize|
                self.gate_unassigned_at(g as int, row as int, i as int)
                    implies #[trigger] vs@.contains(
                Violation::UnassignedCell { at: UnassignedAt::Gate { gate: g, row, poly: i } },
            ) by {
                lemma_contains_prefix(
                    gvs,
                    cg,
                    Violation::UnassignedCell { at: UnassignedAt::Gate { gate: g, row, poly: i } },
                );
                lemma_contains_prefix(
                    gc,
                    lg,
                    Violation::UnassignedCell { at: UnassignedAt::Gate { gate: g, row, poly: i } },
                );
            }
            assert forall|l: usize, row: usize|
                self.lookup_missing_at(l as int, row as int) implies #[trigger] vs@.contains(
                Violation::LookupViolation { lookup: l, row },
            ) by {
                lemma_contains_suffix(gc, lg, Violation::LookupViolation { lookup: l, row });
            }
            assert forall|l: usize, row: usize|
                self.lookup_unassigned_at(l as int, row as int) implies #[trigger] vs@.contains(
                Violation::UnassignedCell { at: UnassignedAt::Lookup { lookup: l, row } },
            ) by {
                lemma_contains_suffix(
                    gc,
                    lg,
                    Violation::UnassignedCell { at: UnassignedAt::Lookup { lookup: l, row } },
                );
            }
            if !self.copy_values_ok() {
                let j = choose|j: int|
                    0 <= j < cg.len() && ((#[trigger] cg[j]) is CopyConstraintViolation || cg[j]
                        is PublicInputMismatch);
                assert(vs@[gvs.len() + j] == cg[j]);
            }
            if !self.copy_assigned_ok() {
                let j = choose|j: int|
                    0 <= j < cg.len() && (#[trigger] cg[j]) matches Violation::UnassignedCell {
                        at: UnassignedAt::CopyClass { .. },
                    };
                assert(vs@[gvs.len() + j] == cg[j]);
                assert(has_unassigned_report(vs@));
            }
        }
        if vs.len() == 0 {
            proof {
                assert forall|g: int, r: int, i: int|
                    0 <= g < self.cs.gates@.len() && 0 <= r < self.rows() && 0 <= i
                        < self.cs.gates@[g].polys@.len() && self.sel_at(
                        self.cs.gates@[g].selector as int,
                        r,
                    ) implies #[trigger] self.eval(self.cs.gates@[g].polys@[i], r)
                    == Some(0int) by {
                    vstd::std_specs::vec::axiom_spec_len(&self.cs.gates);
                    vstd::std_specs::vec::axiom_spec_len(&self.cs.gates@[g].polys);
                    assert((g as usize) as int == g);
                    assert((r as usize) as int == r);
                    assert((i as usize) as int == i);
                    match self.eval(self.cs.gates@[g].polys@[i], r) {
                        Some(x) => {
                            if x != 0 {
                                assert(self.gate_unsat_at(
                                    (g as usize) as int,
                                    (r as usize) as int,
                                    (i as usize) as int,
                                ));
                                assert(vs@.contains(
                                    Violation::ConstraintNotSatisfied {
                                        gate: g as usize,
                                        row: r as usize,
                                        poly: i as usize,
                                    },
                                ));
                            }
                        },
                        None => {
                            assert(self.gate_unassigned_at(
                                (g as usize) as int,
                                (r as usize) as int,
                                (i as usize) as int,
                            ));
                            assert(vs@.contains(
                                Violation::UnassignedCell {
                                    at: UnassignedAt::Gate {
                                        gate: g as usize,
                                        row: r as usize,
                                        poly: i as usize,
                                    },
                                },
                            ));
                        },
                    }
                }
                assert forall|l: int, r: int|
                    0 <= l < self.cs.lookups@.len() && 0 <= r < self.rows()
                        implies #[trigger] self.lookup_sat_at(l, r) by {
                    vstd::std_specs::vec::axiom_spec_len(&self.cs.lookups);
                    assert((l as usize) as int == l);
                    assert((r as usize) as int == r);
                    match self.eval(self.cs.lookups@[l].input, r) {
                        Some(x) => {
                            if !self.table_contains(self.cs.lookups@[l].table as int, x) {
                                assert(self.lookup_missing_at((l as usize) as int, (r as usize) as int));
                                assert(vs@.contains(
                                    Violation::LookupViolation {
                                        lookup: l as usize,
                                        row: r as usize,
                                    },
                                ));
                            }
                        },
                        None => {
                            assert(self.lookup_unassigned_at((l as usize) as int, (r as usize) as int));
                            assert(vs@.contains(
                                Violation::UnassignedCell {
                                    at: UnassignedAt::Lookup {
                                        lookup: l as usize,
                                        row: r as usize,
                                    },
                                },
                            ));
                        },
                    }
                }
                if !self.copy_values_ok() {
                    assert(false);
                }
                if !self.copy_assigned_ok() {
                    assert(false);
                }
            }
            Ok(())
        } else {
            proof {
                self.lemma_genuine_refutes(vs@[0]);
            }
            Err(vs)
        }
    }
}

} // verus!
