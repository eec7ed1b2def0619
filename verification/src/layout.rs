//! The assignment table and the region-scoped layouter.
//!
//! The table is a grid of values bounded by `n` rows, one vector of cells per
//! declared column, plus one boolean vector per selector.  The layouter
//! places regions sequentially: a region opens at the next free row, writes
//! are addressed by a local offset, and when the region is left the rows it
//! used are committed.  Cells are filled monotonically: re-entering a cell
//! with the same value is idempotent, re-entering it with a different known
//! value is a `SynthesisError`.  Instance columns are loaded up front from
//! the caller-supplied public inputs; equality constraints that target them
//! are how those inputs are validated.

use vstd::prelude::*;
use crate::cs::ConstraintSystem;
use crate::expr::column_declared;
use crate::field::fe_val;
use crate::grid::{Cell, Column, ColumnKind, Selector};
use crate::report::SynthesisError;
use crate::value::{val_clone, Val};

verus! {

pub struct Table {
    /// The row bound: every column holds exactly `n` cells.
    pub n: usize,
    pub advice: Vec<Vec<Val>>,
    pub instance: Vec<Vec<Val>>,
    pub fixed: Vec<Vec<Val>>,
    pub selectors: Vec<Vec<bool>>,
}

impl Table {
    pub open spec fn wf(self) -> bool {
        &&& self.n >= 1
        &&& forall|c: int|
            0 <= c < self.advice@.len() ==> (#[trigger] self.advice@[c])@.len() == self.n
        &&& forall|c: int|
            0 <= c < self.instance@.len() ==> (#[trigger] self.instance@[c])@.len() == self.n
        &&& forall|c: int|
            0 <= c < self.fixed@.len() ==> (#[trigger] self.fixed@[c])@.len() == self.n
        &&& forall|s: int|
            0 <= s < self.selectors@.len() ==> (#[trigger] self.selectors@[s])@.len() == self.n
    }

    /// The table has exactly the columns and selectors that `cs` declares.
    pub open spec fn matches_cs(self, cs: ConstraintSystem) -> bool {
        &&& self.advice@.len() == cs.num_advice()
        &&& self.instance@.len() == cs.num_instance()
        &&& self.fixed@.len() == cs.num_fixed()
        &&& self.selectors@.len() == cs.num_selectors
    }
}

/// The cells of one column.
pub open spec fn col_cells(t: Table, c: Column) -> Seq<Val> {
    match c.kind {
        ColumnKind::Advice => t.advice@[c.index as int]@,
        ColumnKind::Instance => t.instance@[c.index as int]@,
        ColumnKind::Fixed => t.fixed@[c.index as int]@,
    }
}

/// The value a cell holds, as the canonical integer it stands for.
pub open spec fn cell_val(t: Table, c: Column, row: int) -> Option<int> {
    col_cells(t, c)[row]@
}

/// Whether a selector is active at a row.
pub open spec fn sel_on(t: Table, s: Selector, row: int) -> bool {
    t.selectors@[s.index as int]@[row]
}

/// The canonical integers of a sequence of field elements.
pub open spec fn fp_vals(s: Seq<pasta_curves::Fp>) -> Seq<int> {
    Seq::new(s.len(), |i: int| fe_val(s[i]))
}

/// The caller-supplied instance vectors, as integers.
pub open spec fn inst_vals(ss: Seq<Vec<pasta_curves::Fp>>) -> Seq<Seq<int>> {
    Seq::new(ss.len(), |i: int| fp_vals(ss[i]@))
}

/// A freshly created table: no witness value or selector is set, and the
/// instance columns hold exactly the supplied public inputs.
pub open spec fn witness_fresh(t: Table, iv: Seq<Seq<int>>) -> bool {
    &&& forall|c: int, r: int|
        0 <= c < t.advice@.len() && 0 <= r < t.n ==> (#[trigger] t.advice@[c]@[r])@ is None
    &&& forall|c: int, r: int|
        0 <= c < t.fixed@.len() && 0 <= r < t.n ==> (#[trigger] t.fixed@[c]@[r])@ is None
    &&& forall|s: int, r: int|
        0 <= s < t.selectors@.len() && 0 <= r < t.n ==> !(#[trigger] t.selectors@[s]@[r])
    &&& iv.len() == t.instance@.len()
    &&& forall|c: int, r: int|
        0 <= c < t.instance@.len() && 0 <= r < t.n ==> (#[trigger] t.instance@[c]@[r])@ == (
        if r < iv[c].len() {
            Some(iv[c][r])
        } else {
            None::<int>
        })
}

/// Whether both cells of an equality constraint lie inside the table.
pub open spec fn pair_wf(p: (Cell, Cell), t: Table) -> bool {
    &&& column_declared(
        p.0.column,
        t.advice@.len() as int,
        t.instance@.len() as int,
        t.fixed@.len() as int,
    )
    &&& column_declared(
        p.1.column,
        t.advice@.len() as int,
        t.instance@.len() as int,
        t.fixed@.len() as int,
    )
    &&& p.0.row < t.n
    &&& p.1.row < t.n
}

pub open spec fn copies_wf(ps: Seq<(Cell, Cell)>, t: Table) -> bool {
    forall|i: int| 0 <= i < ps.len() ==> pair_wf(#[trigger] ps[i], t)
}

/// Whether equality constraints may target column `c`.
pub open spec fn col_eq_enabled(cs: ConstraintSystem, c: Column) -> bool {
    match c.kind {
        ColumnKind::Advice => cs.advice_eq@[c.index as int],
        ColumnKind::Instance => cs.instance_eq@[c.index as int],
        ColumnKind::Fixed => cs.fixed_eq@[c.index as int],
    }
}

/// The sequential region layouter: owns the table being populated and the
/// declared equality constraints.
pub struct Layouter<'a> {
    pub cs: &'a ConstraintSystem,
    pub table: Table,
    pub copies: Vec<(Cell, Cell)>,
    /// The first row not yet claimed by a committed region.
    pub next_row: usize,
    pub in_region: bool,
    /// Where the open region starts (its local offset zero).
    pub region_start: usize,
    /// One past the largest local offset the open region has touched.
    pub region_rows: usize,
}

impl<'a> Layouter<'a> {
    pub open spec fn wf(self) -> bool {
        &&& self.cs.wf()
        &&& self.table.wf()
        &&& self.table.matches_cs(*self.cs)
        &&& self.next_row <= self.table.n
        &&& self.in_region ==> self.region_start == self.next_row && self.region_start
            + self.region_rows <= self.table.n
        &&& copies_wf(self.copies@, self.table)
    }

    /// A layouter over an empty table of `n` rows, with the instance columns
    /// loaded from `instances`.
    pub fn new(cs: &'a ConstraintSystem, n: usize, instances: &Vec<Vec<pasta_curves::Fp>>) -> (l:
        Layouter<'a>)
        requires
            cs.wf(),
            n >= 1,
            instances@.len() == cs.num_instance(),
            forall|i: int| 0 <= i < instances@.len() ==> (#[trigger] instances@[i])@.len() <= n,
        ensures
            l.wf(),
            l.cs == cs,
            l.table.n == n,
            l.next_row == 0,
            !l.in_region,
            l.copies@.len() == 0,
            witness_fresh(l.table, inst_vals(instances@)),
    {
        let table = Table {
            n,
            advice: blank_cols(cs.advice_eq.len(), n),
            instance: instance_cols(instances, n),
            fixed: blank_cols(cs.fixed_eq.len(), n),
            selectors: blank_sels(cs.num_selectors, n),
        };
        Layouter {
            cs,
            table,
            copies: Vec::new(),
            next_row: 0,
            in_region: false,
            region_start: 0,
            region_rows: 0,
        }
    }

    /// Open a region at the next free row.  The name is diagnostic only.
    pub fn enter_region(&mut self, _name: &'static str)
        requires
            old(self).wf(),
            !old(self).in_region,
        ensures
            final(self).wf(),
            final(self).in_region,
            final(self).region_start == old(self).next_row,
            final(self).region_rows == 0,
            final(self).cs == old(self).cs,
            final(self).table == old(self).table,
            final(self).copies == old(self).copies,
            final(self).next_row == old(self).next_row,
    {
        self.in_region = true;
        self.region_start = self.next_row;
        self.region_rows = 0;
    }

    /// Commit the open region: the rows it used are claimed, and the next
    /// region will start after them.
    pub fn exit_region(&mut self)
        requires
            old(self).wf(),
            old(self).in_region,
        ensures
            final(self).wf(),
            !final(self).in_region,
            final(self).next_row == old(self).region_start + old(self).region_rows,
            final(self).cs == old(self).cs,
            final(self).table == old(self).table,
            final(self).copies == old(self).copies,
    {
        self.next_row = self.region_start + self.region_rows;
        self.in_region = false;
        self.region_rows = 0;
    }

    /// Write a value into an advice column at a local offset of the open
    /// region.  Writing past the row bound or re-entering a cell with a
    /// different known value is a `SynthesisError`; otherwise the resolved
    /// cell is returned.
    pub fn assign_advice(&mut self, column: Column, offset: usize, v: &Val) -> (r: Result<
        Cell,
        SynthesisError,
    >)
        requires
            old(self).wf(),
            old(self).in_region,
            column.kind is Advice,
            column.index < old(self).table.advice@.len(),
        ensures
            final(self).wf(),
            final(self).cs == old(self).cs,
            final(self).copies == old(self).copies,
            final(self).next_row == old(self).next_row,
            final(self).in_region,
            final(self).region_start == old(self).region_start,
            final(self).table.n == old(self).table.n,
            final(self).table.instance == old(self).table.instance,
            final(self).table.fixed == old(self).table.fixed,
            final(self).table.selectors == old(self).table.selectors,
            final(self).table.advice@.len() == old(self).table.advice@.len(),
            r == (if old(self).region_start + offset >= old(self).table.n {
                Err::<Cell, SynthesisError>(SynthesisError::OutOfRows)
            } else if cell_val(
                old(self).table,
                column,
                old(self).region_start + offset,
            ) is Some && v@ is Some && cell_val(
                old(self).table,
                column,
                old(self).region_start + offset,
            ) != v@ {
                Err::<Cell, SynthesisError>(
                    SynthesisError::Inconsistent(
                        (Cell { column, row: (old(self).region_start + offset) as usize }),
                    ),
                )
            } else {
                Ok::<Cell, SynthesisError>(
                    (Cell { column, row: (old(self).region_start + offset) as usize }),
                )
            }),
            r is Err ==> *final(self) == *old(self),
            r is Ok ==> final(self).region_rows == (if offset + 1 > old(self).region_rows {
                offset + 1
            } else {
                old(self).region_rows as int
            }),
            r is Ok ==> (forall|c: int|
                0 <= c < old(self).table.advice@.len() && c != column.index
                    ==> #[trigger] final(self).table.advice@[c] == old(self).table.advice@[c]),
            r is Ok ==> (forall|rr: int|
                0 <= rr < old(self).table.n && rr != old(self).region_start + offset ==> #[trigger] final(self).table.advice@[column.index as int]@[rr] == old(self).table.advice@[
                    column.index as int
                ]@[rr]),
            r is Ok ==> final(self).table.advice@[column.index as int]@.len() == old(self).table.n,
            r is Ok ==> cell_val(final(self).table, column, old(self).region_start + offset) == (
            if cell_val(old(self).table, column, old(self).region_start + offset) is Some {
                cell_val(old(self).table, column, old(self).region_start + offset)
            } else {
                v@
            }),
    {
        if offset >= self.table.n - self.region_start {
            return Err(SynthesisError::OutOfRows);
        }
        let row = self.region_start + offset;
        let cell = Cell { column, row };
        let ci = column.index;
        let write: bool;
        match (&self.table.advice[ci][row], v) {
            (Val::Known(x), Val::Known(y)) => {
                if !crate::field::fe_eq(x, y) {
                    return Err(SynthesisError::Inconsistent(cell));
                }
                write = false;
            },
            (Val::Known(_), Val::Unknown) => {
                write = false;
            },
            (Val::Unknown, _) => {
                write = true;
            },
        }
        if write {
            let nv = val_clone(v);
            self.table.advice[ci][row] = nv;
        }
        if offset + 1 > self.region_rows {
            self.region_rows = offset + 1;
        }
        Ok(cell)
    }

    /// Activate a selector at a local offset of the open region.
    pub fn enable_selector(&mut self, s: Selector, offset: usize) -> (r: Result<
        (),
        SynthesisError,
    >)
        requires
            old(self).wf(),
            old(self).in_region,
            s.index < old(self).table.selectors@.len(),
        ensures
            final(self).wf(),
            final(self).cs == old(self).cs,
            final(self).copies == old(self).copies,
            final(self).next_row == old(self).next_row,
            final(self).in_region,
            final(self).region_start == old(self).region_start,
            final(self).table.n == old(self).table.n,
            final(self).table.advice == old(self).table.advice,
            final(self).table.instance == old(self).table.instance,
            final(self).table.fixed == old(self).table.fixed,
            final(self).table.selectors@.len() == old(self).table.selectors@.len(),
            r == (if old(self).region_start + offset >= old(self).table.n {
                Err::<(), SynthesisError>(SynthesisError::OutOfRows)
            } else {
                Ok::<(), SynthesisError>(())
            }),
            r is Err ==> *final(self) == *old(self),
            r is Ok ==> final(self).region_rows == (if offset + 1 > old(self).region_rows {
                offset + 1
            } else {
                old(self).region_rows as int
            }),
            r is Ok ==> (forall|si: int|
                0 <= si < old(self).table.selectors@.len() && si != s.index ==> #[trigger] final(self).table.selectors@[si] == old(self).table.selectors@[si]),
            r is Ok ==> (forall|rr: int|
                0 <= rr < old(self).table.n && rr != old(self).region_start + offset ==> final(self).table.selectors@[s.index as int]@[rr] == old(self).table.selectors@[
                    s.index as int
                ]@[rr]),
            r is Ok ==> final(self).table.selectors@[s.index as int]@.len() == old(self).table.n,
            r is Ok ==> sel_on(final(self).table, s, old(self).region_start + offset),
    {
        if offset >= self.table.n - self.region_start {
            return Err(SynthesisError::OutOfRows);
        }
        let row = self.region_start + offset;
        self.table.selectors[s.index][row] = true;
        if offset + 1 > self.region_rows {
            self.region_rows = offset + 1;
        }
        Ok(())
    }

    /// Declare that two cells must hold equal values.  Both columns must
    /// have equality enabled; the constraint itself is validated later, by
    /// the checker.
    pub fn constrain_equal(&mut self, left: Cell, right: Cell) -> (r: Result<(), SynthesisError>)
        requires
            old(self).wf(),
            pair_wf((left, right), old(self).table),
        ensures
            final(self).wf(),
            final(self).cs == old(self).cs,
            final(self).table == old(self).table,
            final(self).next_row == old(self).next_row,
            final(self).in_region == old(self).in_region,
            final(self).region_start == old(self).region_start,
            final(self).region_rows == old(self).region_rows,
            r == (if !col_eq_enabled(*old(self).cs, left.column) {
                Err::<(), SynthesisError>(SynthesisError::EqualityNotEnabled(left.column))
            } else if !col_eq_enabled(*old(self).cs, right.column) {
                Err::<(), SynthesisError>(SynthesisError::EqualityNotEnabled(right.column))
            } else {
                Ok::<(), SynthesisError>(())
            }),
            r is Err ==> *final(self) == *old(self),
            r is Ok ==> final(self).copies@ == old(self).copies@.push((left, right)),
    {
        if !eq_enabled(self.cs, left.column) {
            return Err(SynthesisError::EqualityNotEnabled(left.column));
        }
        if !eq_enabled(self.cs, right.column) {
            return Err(SynthesisError::EqualityNotEnabled(right.column));
        }
        self.copies.push((left, right));
        Ok(())
    }
}

/// Runtime check of `col_eq_enabled`.
fn eq_enabled(cs: &ConstraintSystem, c: Column) -> (r: bool)
    requires
        column_declared(c, cs.num_advice(), cs.num_instance(), cs.num_fixed()),
    ensures
        r == col_eq_enabled(*cs, c),
{
    match c.kind {
        ColumnKind::Advice => cs.advice_eq[c.index],
        ColumnKind::Instance => cs.instance_eq[c.index],
        ColumnKind::Fixed => cs.fixed_eq[c.index],
    }
}

/// One column of `n` unknown cells.
fn blank_col(n: usize) -> (col: Vec<Val>)
    ensures
        col@.len() == n,
        forall|r: int| 0 <= r < n ==> (#[trigger] col@[r])@ is None,
{
    let mut col: Vec<Val> = Vec::new();
    let mut r: usize = 0;
    while r < n
        invariant
            r <= n,
            col@.len() == r,
            forall|j: int| 0 <= j < r ==> (#[trigger] col@[j])@ is None,
        decreases n - r,
    {
        col.push(Val::Unknown);
        r = r + 1;
    }
    col
}

/// `count` columns of `n` unknown cells each.
fn blank_cols(count: usize, n: usize) -> (cols: Vec<Vec<Val>>)
    ensures
        cols@.len() == count,
        forall|c: int| 0 <= c < count ==> (#[trigger] cols@[c])@.len() == n,
        forall|c: int, r: int| 0 <= c < count && 0 <= r < n ==> (#[trigger] cols@[c]@[r])@ is None,
{
    let mut cols: Vec<Vec<Val>> = Vec::new();
    let mut c: usize = 0;
    while c < count
        invariant
            c <= count,
            cols@.len() == c,
            forall|j: int| 0 <= j < c ==> (#[trigger] cols@[j])@.len() == n,
            forall|j: int, r: int|
                0 <= j < c && 0 <= r < n ==> (#[trigger] cols@[j]@[r])@ is None,
        decreases count - c,
    {
        cols.push(blank_col(n));
        c = c + 1;
    }
    cols
}

/// One selector column: `n` inactive flags.
fn blank_sel(n: usize) -> (col: Vec<bool>)
    ensures
        col@.len() == n,
        forall|r: int| 0 <= r < n ==> !(#[trigger] col@[r]),
{
    let mut col: Vec<bool> = Vec::new();
    let mut r: usize = 0;
    while r < n
        invariant
            r <= n,
            col@.len() == r,
            forall|j: int| 0 <= j < r ==> !(#[trigger] col@[j]),
        decreases n - r,
    {
        col.push(false);
        r = r + 1;
    }
    col
}

/// `count` selector columns of `n` inactive flags each.
fn blank_sels(count: usize, n: usize) -> (cols: Vec<Vec<bool>>)
    ensures
        cols@.len() == count,
        forall|s: int| 0 <= s < count ==> (#[trigger] cols@[s])@.len() == n,
        forall|s: int, r: int| 0 <= s < count && 0 <= r < n ==> !(#[trigger] cols@[s]@[r]),
{
    let mut cols: Vec<Vec<bool>> = Vec::new();
    let mut c: usize = 0;
    while c < count
        invariant
            c <= count,
            cols@.len() == c,
            forall|j: int| 0 <= j < c ==> (#[trigger] cols@[j])@.len() == n,
            forall|j: int, r: int| 0 <= j < c && 0 <= r < n ==> !(#[trigger] cols@[j]@[r]),
        decreases count - c,
    {
        cols.push(blank_sel(n));
        c = c + 1;
    }
    cols
}

/// One instance column: the supplied values, padded with unknown cells up to
/// the row bound.
fn instance_col(vals: &Vec<pasta_curves::Fp>, n: usize) -> (col: Vec<Val>)
    requires
        vals@.len() <= n,
    ensures
        col@.len() == n,
        forall|r: int|
            0 <= r < n ==> (#[trigger] col@[r])@ == (if r < vals@.len() {
                Some(fe_val(vals@[r]))
            } else {
                None::<int>
            }),
{
    let mut col: Vec<Val> = Vec::new();
    let mut r: usize = 0;
    while r < n
        invariant
            r <= n,
            vals@.len() <= n,
            col@.len() == r,
            forall|j: int|
                0 <= j < r ==> (#[trigger] col@[j])@ == (if j < vals@.len() {
                    Some(fe_val(vals@[j]))
                } else {
                    None::<int>
                }),
        decreases n - r,
    {
        if r < vals.len() {
            col.push(Val::Known(crate::field::fe_clone(&vals[r])));
        } else {
            col.push(Val::Unknown);
        }
        r = r + 1;
    }
    col
}

/// The instance columns of a fresh table.
fn instance_cols(instances: &Vec<Vec<pasta_curves::Fp>>, n: usize) -> (cols: Vec<Vec<Val>>)
    requires
        forall|i: int| 0 <= i < instances@.len() ==> (#[trigger] instances@[i])@.len() <= n,
    ensures
        cols@.len() == instances@.len(),
        forall|c: int| 0 <= c < cols@.len() ==> (#[trigger] cols@[c])@.len() == n,
        forall|c: int, r: int|
            0 <= c < cols@.len() && 0 <= r < n ==> (#[trigger] cols@[c]@[r])@ == (if r
                < inst_vals(instances@)[c].len() {
                Some(inst_vals(instances@)[c][r])
            } else {
                None::<int>
            }),
{
    let mut cols: Vec<Vec<Val>> = Vec::new();
    let mut c: usize = 0;
    while c < instances.len()
        invariant
            c <= instances@.len(),
            cols@.len() == c,
            forall|i: int| 0 <= i < instances@.len() ==> (#[trigger] instances@[i])@.len() <= n,
            forall|j: int| 0 <= j < c ==> (#[trigger] cols@[j])@.len() == n,
            forall|j: int, r: int|
                0 <= j < c && 0 <= r < n ==> (#[trigger] cols@[j]@[r])@ == (if r < inst_vals(
                    instances@,
                )[j].len() {
                    Some(inst_vals(instances@)[j][r])
                } else {
                    None::<int>
                }),
        decreases instances@.len() - c,
    {
        cols.push(instance_col(&instances[c], n));
        c = c + 1;
    }
    cols
}

} // verus!
