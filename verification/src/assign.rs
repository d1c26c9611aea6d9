//! Witness assignment: the concrete per-column, per-row values of one run.
//!
//! An [`AssignmentTable`] holds every advice value (or `Unknown`), every
//! selector activation, the lookup table contents, and the copy-constraint
//! requests recorded while assigning.  An [`Assigner`] is a sequential
//! cursor over the table: each region starts where the previous one ended,
//! and every operation fails fast with a configuration [`Error`] when it
//! would leave the declared shape.

use vstd::arithmetic::power2::lemma2_to64;
use vstd::arithmetic::power2::lemma_pow2_adds;
use vstd::arithmetic::power2::lemma_pow2_strictly_increases;
use vstd::arithmetic::power2::pow2;
use vstd::prelude::*;

use crate::error::Error;
use crate::field::FieldElement;
use crate::layout::AdviceColumn;
use crate::layout::Cell;
use crate::layout::InstanceColumn;
use crate::layout::Selector;
use crate::layout::TableColumn;
use crate::system::ConstraintSystem;
use crate::value::Value;

verus! {

/// The largest supported size exponent: a circuit has `2^k` rows.
pub const MAX_K: usize = 20;

/// An unordered pair of advice cells declared equal.
#[derive(Clone, Copy, Debug, PartialEq, Eq, Structural)]
pub struct CopyPair {
    pub a: Cell,
    pub b: Cell,
}

/// An advice cell declared equal to a public input position.
#[derive(Clone, Copy, Debug, PartialEq, Eq, Structural)]
pub struct InstanceBinding {
    pub cell: Cell,
    pub column: usize,
    pub row: usize,
}

/// The concrete values of one witness run, plus the copy-constraint
/// requests recorded while building it.
#[derive(Debug)]
pub struct AssignmentTable {
    /// The number of usable rows, `2^k`.
    pub rows: usize,
    /// Advice values, one `Vec` of length `rows` per advice column.
    pub advice: Vec<Vec<Value>>,
    /// Selector activations, one `Vec` of length `rows` per selector.
    pub selectors: Vec<Vec<bool>>,
    /// Lookup table contents, one `Vec` of length `rows` per table column;
    /// `None` marks a never-assigned slot.
    pub tables: Vec<Vec<Option<FieldElement>>>,
    /// Which advice columns are equality-enabled, copied from the
    /// constraint system when assignment starts.
    pub advice_eq: Vec<bool>,
    /// Which instance columns are equality-enabled.
    pub instance_eq: Vec<bool>,
    /// Declared equalities between advice cells.
    pub copies: Vec<CopyPair>,
    /// Declared equalities between an advice cell and a public input.
    pub bindings: Vec<InstanceBinding>,
}

impl AssignmentTable {
    /// The number of advice columns.
    pub open spec fn num_advice(self) -> int {
        self.advice@.len() as int
    }

    /// The number of instance columns.
    pub open spec fn num_instance(self) -> int {
        self.instance_eq@.len() as int
    }

    /// The advice value at column `c`, row `r`.
    pub open spec fn advice_at(self, c: int, r: int) -> Value {
        self.advice@[c]@[r]
    }

    /// Whether selector `s` is enabled at row `r`.
    pub open spec fn selector_at(self, s: int, r: int) -> bool {
        self.selectors@[s]@[r]
    }

    /// The lookup table value at column `t`, row `r`; `None` if never
    /// assigned.
    pub open spec fn table_at(self, t: int, r: int) -> Option<FieldElement> {
        self.tables@[t]@[r]
    }

    /// An advice cell address that exists and sits in an
    /// equality-enabled column.
    pub open spec fn cell_wf(self, c: Cell) -> bool {
        &&& (c.column as int) < self.num_advice()
        &&& c.row < self.rows
        &&& self.advice_eq@[c.column as int]
    }

    /// Both cells of a copy pair exist and are equality-enabled.
    pub open spec fn copy_wf(self, p: CopyPair) -> bool {
        &&& self.cell_wf(p.a)
        &&& self.cell_wf(p.b)
    }

    /// The binding's cell exists, and both its columns are
    /// equality-enabled.
    pub open spec fn binding_wf(self, b: InstanceBinding) -> bool {
        &&& self.cell_wf(b.cell)
        &&& (b.column as int) < self.num_instance()
        &&& self.instance_eq@[b.column as int]
        &&& b.row < self.rows
    }

    /// Structural well-formedness: every column has exactly `rows`
    /// entries, and every recorded copy request is in range and
    /// equality-enabled.
    pub open spec fn wf(self) -> bool {
        &&& self.advice@.len() == self.advice_eq@.len()
        &&& forall|c: int|
            0 <= c < self.advice@.len() ==> (#[trigger] self.advice@[c])@.len() == self.rows
        &&& forall|s: int|
            0 <= s < self.selectors@.len() ==> (#[trigger] self.selectors@[s])@.len() == self.rows
        &&& forall|t: int|
            0 <= t < self.tables@.len() ==> (#[trigger] self.tables@[t])@.len() == self.rows
        &&& forall|i: int| 0 <= i < self.copies@.len() ==> self.copy_wf(#[trigger] self.copies@[i])
        &&& forall|i: int|
            0 <= i < self.bindings@.len() ==> self.binding_wf(#[trigger] self.bindings@[i])
    }

    /// `self` is `prior` with the single advice cell `(c, r)` set to `v`
    /// and everything else unchanged.
    pub open spec fn updated_at(self, prior: AssignmentTable, c: int, r: int, v: Value) -> bool {
        &&& self.rows == prior.rows
        &&& self.advice@.len() == prior.advice@.len()
        &&& forall|j: int|
            0 <= j < prior.advice@.len() && j != c ==> #[trigger] self.advice@[j]
                == prior.advice@[j]
        &&& self.advice@[c]@ == prior.advice@[c]@.update(r, v)
        &&& self.selectors@ == prior.selectors@
        &&& self.tables@ == prior.tables@
        &&& self.advice_eq@ == prior.advice_eq@
        &&& self.instance_eq@ == prior.instance_eq@
        &&& self.copies@ == prior.copies@
        &&& self.bindings@ == prior.bindings@
    }

    /// Writes one advice cell.
    fn set_cell(&mut self, column: usize, row: usize, value: Value)
        requires
            old(self).wf(),
            (column as int) < old(self).num_advice(),
            row < old(self).rows,
        ensures
            final(self).wf(),
            final(self).updated_at(*old(self), column as int, row as int, value),
    {
        let col = &mut self.advice[column];
        col[row] = value;
    }

    /// The escape hatch: overwrites an advice cell of an already-built
    /// table.  This exists only so that callers can forge a witness after
    /// normal assignment has finished and then watch the verifier catch
    /// (or miss) the forgery; circuit code must never use it.
    pub fn override_advice(&mut self, column: usize, row: usize, value: Value) -> (r: Result<
        (),
        Error,
    >)
        requires
            old(self).wf(),
        ensures
            final(self).wf(),
            match r {
                Ok(()) => {
                    &&& (column as int) < old(self).num_advice()
                    &&& row < old(self).rows
                    &&& final(self).updated_at(*old(self), column as int, row as int, value)
                },
                Err(e) => {
                    &&& *final(self) == *old(self)
                    &&& if (column as int) >= old(self).num_advice() {
                        e == Error::ColumnOutOfBounds
                    } else {
                        e == Error::RowOutOfBounds && row >= old(self).rows
                    }
                },
            },
    {
        if column >= self.advice.len() {
            return Err(Error::ColumnOutOfBounds);
        }
        if row >= self.rows {
            return Err(Error::RowOutOfBounds);
        }
        self.set_cell(column, row, value);
        Ok(())
    }
}

/// `2^k`, computed safely for `k <= MAX_K`.
pub fn pow2_rows(k: usize) -> (r: usize)
    requires
        k <= MAX_K,
    ensures
        r as nat == pow2(k as nat),
        1 <= r <= 0x10_0000,
{
    proof {
        lemma2_to64();
    }
    let mut r: usize = 1;
    let mut j: usize = 0;
    while j < k
        invariant
            j <= k,
            k <= MAX_K,
            r as nat == pow2(j as nat),
        decreases k - j,
    {
        proof {
            lemma2_to64();
            lemma_pow2_strictly_increases(j as nat, MAX_K as nat);
            lemma_pow2_adds(j as nat, 1);
        }
        r = r * 2;
        j = j + 1;
    }
    proof {
        lemma2_to64();
        if (k as nat) < MAX_K as nat {
            lemma_pow2_strictly_increases(k as nat, MAX_K as nat);
        }
    }
    r
}

/// Copies a flag vector.
fn copy_flags(src: &Vec<bool>) -> (r: Vec<bool>)
    ensures
        r@ == src@,
{
    let mut r: Vec<bool> = Vec::new();
    let mut i: usize = 0;
    while i < src.len()
        invariant
            i <= src.len(),
            r@ == src@.take(i as int),
        decreases src.len() - i,
    {
        r.push(src[i]);
        i = i + 1;
    }
    proof {
        assert(r@ =~= src@);
    }
    r
}

/// A sequential assignment cursor over a fresh [`AssignmentTable`].
///
/// Regions compose sequentially: [`Assigner::begin_region`] advances the
/// cursor past the rows the previous region consumed.
#[derive(Debug)]
pub struct Assigner {
    /// The table being filled.
    pub table: AssignmentTable,
    /// The absolute row where the current region starts.
    pub offset: usize,
    /// How many rows the current region has consumed so far.
    pub used: usize,
}

impl Assigner {
    /// The cursor never leaves the table.
    pub open spec fn wf(self) -> bool {
        &&& self.table.wf()
        &&& self.offset + self.used <= self.table.rows
    }

    /// A fresh assigner for a circuit of `2^k` rows shaped like `cs`:
    /// every advice cell `Unknown`, every selector false, every lookup
    /// table slot unassigned, no copy requests.  Fails with
    /// [`Error::SizeTooLarge`] when `k` exceeds [`MAX_K`].
    pub fn new(cs: &ConstraintSystem, k: usize) -> (r: Result<Assigner, Error>)
        ensures
            match r {
                Ok(a) => {
                    &&& k <= MAX_K
                    &&& a.wf()
                    &&& a.offset == 0
                    &&& a.used == 0
                    &&& a.table.rows as nat == pow2(k as nat)
                    &&& a.table.num_advice() == cs.num_advice()
                    &&& a.table.selectors@.len() == cs.num_selectors
                    &&& a.table.tables@.len() == cs.num_table_columns
                    &&& a.table.advice_eq@ == cs.advice_eq@
                    &&& a.table.instance_eq@ == cs.instance_eq@
                    &&& a.table.copies@ =~= Seq::<CopyPair>::empty()
                    &&& a.table.bindings@ =~= Seq::<InstanceBinding>::empty()
                    &&& forall|c: int|
                        0 <= c < cs.num_advice() ==> (#[trigger] a.table.advice@[c])@
                            == Seq::new(a.table.rows as nat, |x: int| Value::Unknown)
                    &&& forall|s: int|
                        0 <= s < cs.num_selectors ==> (#[trigger] a.table.selectors@[s])@
                            == Seq::new(a.table.rows as nat, |x: int| false)
                    &&& forall|t: int|
                        0 <= t < cs.num_table_columns ==> (#[trigger] a.table.tables@[t])@
                            == Seq::new(a.table.rows as nat, |x: int| Option::<FieldElement>::None)
                },
                Err(e) => e == Error::SizeTooLarge && k > MAX_K,
            },
    {
        if k > MAX_K {
            return Err(Error::SizeTooLarge);
        }
        let rows = pow2_rows(k);

        let mut advice: Vec<Vec<Value>> = Vec::new();
        let na = cs.advice_eq.len();
        let mut c: usize = 0;
        while c < na
            invariant
                advice@.len() == c,
                c <= na,
                forall|j: int|
                    0 <= j < c ==> (#[trigger] advice@[j])@ =~= Seq::new(
                        rows as nat,
                        |x: int| Value::Unknown,
                    ),
            decreases na - c,
        {
            advice.push(vec![Value::Unknown; rows]);
            c = c + 1;
        }

        let mut selectors: Vec<Vec<bool>> = Vec::new();
        let mut s: usize = 0;
        while s < cs.num_selectors
            invariant
                selectors@.len() == s,
                s <= cs.num_selectors,
                forall|j: int|
                    0 <= j < s ==> (#[trigger] selectors@[j])@ =~= Seq::new(
                        rows as nat,
                        |x: int| false,
                    ),
            decreases cs.num_selectors - s,
        {
            selectors.push(vec![false; rows]);
            s = s + 1;
        }

        let mut tables: Vec<Vec<Option<FieldElement>>> = Vec::new();
        let mut t: usize = 0;
        while t < cs.num_table_columns
            invariant
                tables@.len() == t,
                t <= cs.num_table_columns,
                forall|j: int|
                    0 <= j < t ==> (#[trigger] tables@[j])@ =~= Seq::new(
                        rows as nat,
                        |x: int| Option::<FieldElement>::None,
                    ),
            decreases cs.num_table_columns - t,
        {
            tables.push(vec![Option::<FieldElement>::None; rows]);
            t = t + 1;
        }

        let table = AssignmentTable {
            rows,
            advice,
            selectors,
            tables,
            advice_eq: copy_flags(&cs.advice_eq),
            instance_eq: copy_flags(&cs.instance_eq),
            copies: Vec::new(),
            bindings: Vec::new(),
        };
        Ok(Assigner { table, offset: 0, used: 0 })
    }

    /// Closes the current region: the next one starts just past the rows
    /// this one consumed.
    pub fn begin_region(&mut self)
        requires
            old(self).wf(),
        ensures
            final(self).wf(),
            final(self).table == old(self).table,
            final(self).offset == old(self).offset + old(self).used,
            final(self).used == 0,
    {
        self.offset = self.offset + self.used;
        self.used = 0;
    }

    /// Writes `value` into `column` at the region-relative row `rel` and
    /// returns a handle to the written cell.
    pub fn assign_advice(&mut self, column: AdviceColumn, rel: usize, value: Value) -> (r: Result<
        Cell,
        Error,
    >)
        requires
            old(self).wf(),
        ensures
            final(self).wf(),
            final(self).offset == old(self).offset,
            match r {
                Ok(cell) => {
                    &&& (column.index as int) < old(self).table.num_advice()
                    &&& old(self).offset + rel < old(self).table.rows
                    &&& cell.column == column.index
                    &&& cell.row as int == old(self).offset + rel
                    &&& final(self).table.updated_at(
                        old(self).table,
                        column.index as int,
                        old(self).offset + rel,
                        value,
                    )
                    &&& final(self).used as int == if rel + 1 > old(self).used {
                        rel + 1int
                    } else {
                        old(self).used as int
                    }
                },
                Err(e) => {
                    &&& *final(self) == *old(self)
                    &&& if (column.index as int) >= old(self).table.num_advice() {
                        e == Error::ColumnOutOfBounds
                    } else {
                        e == Error::RowOutOfBounds && old(self).offset + rel
                            >= old(self).table.rows
                    }
                },
            },
    {
        if column.index >= self.table.advice.len() {
            return Err(Error::ColumnOutOfBounds);
        }
        if rel >= self.table.rows - self.offset {
            return Err(Error::RowOutOfBounds);
        }
        let abs = self.offset + rel;
        self.table.set_cell(column.index, abs, value);
        if rel + 1 > self.used {
            self.used = rel + 1;
        }
        Ok(Cell { column: column.index, row: abs })
    }

    /// Assigns the cell at `(column, rel)` the same value as `src` and
    /// records a copy constraint between the two cells.  Both columns must
    /// be equality-enabled.
    pub fn copy_advice(&mut self, src: Cell, column: AdviceColumn, rel: usize) -> (r: Result<
        Cell,
        Error,
    >)
        requires
            old(self).wf(),
        ensures
            final(self).wf(),
            final(self).offset == old(self).offset,
            match r {
                Ok(cell) => {
                    &&& old(self).table.cell_wf(src)
                    &&& old(self).table.cell_wf(cell)
                    &&& (column.index as int) < old(self).table.num_advice()
                    &&& old(self).offset + rel < old(self).table.rows
                    &&& cell.column == column.index
                    &&& cell.row as int == old(self).offset + rel
                    &&& final(self).table.rows == old(self).table.rows
                    &&& final(self).table.advice@.len() == old(self).table.advice@.len()
                    &&& forall|j: int|
                        0 <= j < old(self).table.advice@.len() && j != column.index
                            ==> #[trigger] final(self).table.advice@[j] == old(
                            self,
                        ).table.advice@[j]
                    &&& final(self).table.advice@[column.index as int]@ == old(
                        self,
                    ).table.advice@[column.index as int]@.update(
                        old(self).offset + rel,
                        old(self).table.advice_at(src.column as int, src.row as int),
                    )
                    &&& final(self).table.selectors@ == old(self).table.selectors@
                    &&& final(self).table.tables@ == old(self).table.tables@
                    &&& final(self).table.advice_eq@ == old(self).table.advice_eq@
                    &&& final(self).table.instance_eq@ == old(self).table.instance_eq@
                    &&& final(self).table.copies@ == old(self).table.copies@.push(
                        CopyPair { a: src, b: cell },
                    )
                    &&& final(self).table.bindings@ == old(self).table.bindings@
                    &&& final(self).used as int == if rel + 1 > old(self).used {
                        rel + 1int
                    } else {
                        old(self).used as int
                    }
                },
                Err(e) => *final(self) == *old(self),
            },
            r is Err ==> !({
                &&& old(self).table.cell_wf(src)
                &&& (column.index as int) < old(self).table.num_advice()
                &&& old(self).table.advice_eq@[column.index as int]
                &&& old(self).offset + rel < old(self).table.rows
            }),
    {
        if src.column >= self.table.advice.len() {
            return Err(Error::ColumnOutOfBounds);
        }
        if src.row >= self.table.rows {
            return Err(Error::RowOutOfBounds);
        }
        if column.index >= self.table.advice.len() {
            return Err(Error::ColumnOutOfBounds);
        }
        if !self.table.advice_eq[src.column] || !self.table.advice_eq[column.index] {
            return Err(Error::EqualityNotEnabled);
        }
        if rel >= self.table.rows - self.offset {
            return Err(Error::RowOutOfBounds);
        }
        let abs = self.offset + rel;
        let value = self.table.advice[src.column][src.row];
        self.table.set_cell(column.index, abs, value);
        if rel + 1 > self.used {
            self.used = rel + 1;
        }
        let cell = Cell { column: column.index, row: abs };
        self.table.copies.push(CopyPair { a: src, b: cell });
        Ok(cell)
    }

    /// Enables a selector at the region-relative row `rel`.
    pub fn enable_selector(&mut self, s: Selector, rel: usize) -> (r: Result<(), Error>)
        requires
            old(self).wf(),
        ensures
            final(self).wf(),
            final(self).offset == old(self).offset,
            match r {
                Ok(()) => {
                    &&& s.index < old(self).table.selectors@.len()
                    &&& old(self).offset + rel < old(self).table.rows
                    &&& final(self).table.rows == old(self).table.rows
                    &&& final(self).table.advice@ == old(self).table.advice@
                    &&& final(self).table.selectors@.len() == old(self).table.selectors@.len()
                    &&& forall|j: int|
                        0 <= j < old(self).table.selectors@.len() && j != s.index
                            ==> #[trigger] final(self).table.selectors@[j] == old(
                            self,
                        ).table.selectors@[j]
                    &&& final(self).table.selectors@[s.index as int]@ == old(
                        self,
                    ).table.selectors@[s.index as int]@.update(old(self).offset + rel, true)
                    &&& final(self).table.tables@ == old(self).table.tables@
                    &&& final(self).table.advice_eq@ == old(self).table.advice_eq@
                    &&& final(self).table.instance_eq@ == old(self).table.instance_eq@
                    &&& final(self).table.copies@ == old(self).table.copies@
                    &&& final(self).table.bindings@ == old(self).table.bindings@
                    &&& final(self).used as int == if rel + 1 > old(self).used {
                        rel + 1int
                    } else {
                        old(self).used as int
                    }
                },
                Err(e) => {
                    &&& *final(self) == *old(self)
                    &&& if s.index >= old(self).table.selectors@.len() {
                        e == Error::SelectorOutOfBounds
                    } else {
                        e == Error::RowOutOfBounds && old(self).offset + rel
                            >= old(self).table.rows
                    }
                },
            },
    {
        if s.index >= self.table.selectors.len() {
            return Err(Error::SelectorOutOfBounds);
        }
        if rel >= self.table.rows - self.offset {
            return Err(Error::RowOutOfBounds);
        }
        let abs = self.offset + rel;
        let col = &mut self.table.selectors[s.index];
        col[abs] = true;
        if rel + 1 > self.used {
            self.used = rel + 1;
        }
        Ok(())
    }

    /// Records that `cell` must equal the public input at `(column, row)`.
    /// Both columns must be equality-enabled; `row` is absolute.
    pub fn constrain_instance(&mut self, cell: Cell, column: InstanceColumn, row: usize) -> (r:
        Result<(), Error>)
        requires
            old(self).wf(),
        ensures
            final(self).wf(),
            final(self).offset == old(self).offset,
            final(self).used == old(self).used,
            match r {
                Ok(()) => {
                    &&& old(self).table.binding_wf(
                        InstanceBinding { cell, column: column.index, row },
                    )
                    &&& final(self).table.rows == old(self).table.rows
                    &&& final(self).table.advice@ == old(self).table.advice@
                    &&& final(self).table.selectors@ == old(self).table.selectors@
                    &&& final(self).table.tables@ == old(self).table.tables@
                    &&& final(self).table.advice_eq@ == old(self).table.advice_eq@
                    &&& final(self).table.instance_eq@ == old(self).table.instance_eq@
                    &&& final(self).table.copies@ == old(self).table.copies@
                    &&& final(self).table.bindings@ == old(self).table.bindings@.push(
                        InstanceBinding { cell, column: column.index, row },
                    )
                },
                Err(e) => {
                    &&& *final(self) == *old(self)
                    &&& !old(self).table.binding_wf(
                        InstanceBinding { cell, column: column.index, row },
                    )
                },
            },
    {
        if cell.column >= self.table.advice.len() {
            return Err(Error::ColumnOutOfBounds);
        }
        if cell.row >= self.table.rows {
            return Err(Error::RowOutOfBounds);
        }
        if column.index >= self.table.instance_eq.len() {
            return Err(Error::ColumnOutOfBounds);
        }
        if !self.table.advice_eq[cell.column] || !self.table.instance_eq[column.index] {
            return Err(Error::EqualityNotEnabled);
        }
        if row >= self.table.rows {
            return Err(Error::RowOutOfBounds);
        }
        self.table.bindings.push(InstanceBinding { cell, column: column.index, row });
        Ok(())
    }

    /// Populates one lookup table slot, in the dedicated table-assignment
    /// phase.  `row` is absolute; a slot may be assigned only once.
    pub fn assign_table_cell(&mut self, column: TableColumn, row: usize, value: FieldElement) -> (r:
        Result<(), Error>)
        requires
            old(self).wf(),
        ensures
            final(self).wf(),
            final(self).offset == old(self).offset,
            final(self).used == old(self).used,
            match r {
                Ok(()) => {
                    &&& column.index < old(self).table.tables@.len()
                    &&& row < old(self).table.rows
                    &&& old(self).table.table_at(column.index as int, row as int) is None
                    &&& final(self).table.rows == old(self).table.rows
                    &&& final(self).table.advice@ == old(self).table.advice@
                    &&& final(self).table.selectors@ == old(self).table.selectors@
                    &&& final(self).table.tables@.len() == old(self).table.tables@.len()
                    &&& forall|j: int|
                        0 <= j < old(self).table.tables@.len() && j != column.index
                            ==> #[trigger] final(self).table.tables@[j] == old(
                            self,
                        ).table.tables@[j]
                    &&& final(self).table.tables@[column.index as int]@ == old(
                        self,
                    ).table.tables@[column.index as int]@.update(row as int, Some(value))
                    &&& final(self).table.advice_eq@ == old(self).table.advice_eq@
                    &&& final(self).table.instance_eq@ == old(self).table.instance_eq@
                    &&& final(self).table.copies@ == old(self).table.copies@
                    &&& final(self).table.bindings@ == old(self).table.bindings@
                },
                Err(e) => {
                    &&& *final(self) == *old(self)
                    &&& if column.index >= old(self).table.tables@.len() {
                        e == Error::ColumnOutOfBounds
                    } else if row >= old(self).table.rows {
                        e == Error::RowOutOfBounds
                    } else {
                        e == Error::TableCellReassigned && old(self).table.table_at(
                            column.index as int,
                            row as int,
                        ) is Some
                    }
                },
            },
    {
        if column.index >= self.table.tables.len() {
            return Err(Error::ColumnOutOfBounds);
        }
        if row >= self.table.rows {
            return Err(Error::RowOutOfBounds);
        }
        if self.table.tables[column.index][row].is_some() {
            return Err(Error::TableCellReassigned);
        }
        let col = &mut self.table.tables[column.index];
        col[row] = Some(value);
        Ok(())
    }

    /// Ends assignment and hands the finished table to the caller.
    pub fn finish(self) -> (t: AssignmentTable)
        requires
            self.wf(),
        ensures
            t.wf(),
            t == self.table,
    {
        self.table
    }
}

} // verus!
