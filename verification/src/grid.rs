//! The assignment grid: a write-once mapping from cells to field elements.
//!
//! The grid owns one table per column kind that carries values (advice and
//! fixed) and a monotonically increasing row cursor from which regions are
//! allocated.  A cell may be assigned at most once; a second write to the
//! same cell is an `AssignmentConflict`, never a silent overwrite.

use crate::columns::{Column, ColumnKind};
use crate::field::Felt;
use vstd::prelude::*;

verus! {

/// The unit of assignment: one column at one absolute row.
#[derive(Clone, Copy, Debug, PartialEq, Eq, Structural)]
pub struct Cell {
    pub column: Column,
    pub row: usize,
}

/// Errors raised while building the assignment grid.
#[derive(Clone, Copy, Debug, PartialEq, Eq, Structural)]
pub enum SynthError {
    /// The cell was already assigned.
    AssignmentConflict { cell: Cell },
    /// The allocator ran out of rows.
    NotEnoughRows { needed: usize, available: usize },
}

/// A contiguous span of rows handed out by the grid's row allocator.
///
/// Assignments through a region name a local offset in `[0, size)`, which the
/// region translates to the absolute row `start + offset`.
#[derive(Clone, Copy, Debug, PartialEq, Eq, Structural)]
pub struct Region {
    pub start: usize,
    pub size: usize,
}

/// The cell of a value table at column `c`, row `r`; `None` outside the table.
pub open spec fn cell_at(t: Seq<Vec<Option<Felt>>>, c: int, r: int) -> Option<Felt> {
    if 0 <= c < t.len() && 0 <= r < t[c]@.len() {
        t[c]@[r]
    } else {
        None
    }
}

/// The value a query reads from a table: an unassigned cell is zero.
pub open spec fn val_at(t: Seq<Vec<Option<Felt>>>, c: int, r: int) -> nat {
    match cell_at(t, c, r) {
        Some(f) => f@,
        None => 0,
    }
}

/// The assignment grid for one circuit instance.
pub struct Grid {
    /// One value column per advice column, each `rows` long.
    pub advice: Vec<Vec<Option<Felt>>>,
    /// One value column per fixed column, each `rows` long.
    pub fixed: Vec<Vec<Option<Felt>>>,
    /// The total row count of the circuit.
    pub rows: usize,
    /// The row cursor: rows below it have been handed out to regions.
    pub used: usize,
}

impl Grid {
    /// The value an advice query reads: an unassigned cell is zero.
    pub open spec fn advice_val(self, c: int, r: int) -> nat {
        val_at(self.advice@, c, r)
    }

    /// The value a fixed query reads: an unassigned cell is zero.
    pub open spec fn fixed_val(self, c: int, r: int) -> nat {
        val_at(self.fixed@, c, r)
    }

    /// Well-formedness: the cursor is in range, the row count is bounded,
    /// every value column is `rows` long and holds reduced field elements.
    pub open spec fn wf(self) -> bool {
        &&& self.used <= self.rows
        &&& self.rows <= 0x4000_0000
        &&& forall|c: int|
            0 <= c < self.advice@.len() ==> (#[trigger] self.advice@[c])@.len() == self.rows
        &&& forall|c: int|
            0 <= c < self.fixed@.len() ==> (#[trigger] self.fixed@[c])@.len() == self.rows
        &&& forall|c: int, r: int|
            (#[trigger] cell_at(self.advice@, c, r)) matches Some(f) ==> f.inv()
        &&& forall|c: int, r: int|
            (#[trigger] cell_at(self.fixed@, c, r)) matches Some(f) ==> f.inv()
    }

    /// A blank grid: no cell assigned, no row handed out.
    pub fn new(n_advice: usize, n_fixed: usize, rows: usize) -> (g: Grid)
        requires
            rows <= 0x4000_0000,
        ensures
            g.wf(),
            g.rows == rows,
            g.used == 0,
            g.advice@.len() == n_advice,
            g.fixed@.len() == n_fixed,
            forall|c: int, r: int| #[trigger] cell_at(g.advice@, c, r) is None,
            forall|c: int, r: int| #[trigger] cell_at(g.fixed@, c, r) is None,
    {
        let advice = blank_table(n_advice, rows);
        let fixed = blank_table(n_fixed, rows);
        Grid { advice, fixed, rows, used: 0 }
    }

    /// Allocates the next `size` rows as a fresh region and advances the
    /// cursor, so that two regions never share an absolute row.
    pub fn alloc_region(&mut self, size: usize) -> (r: Result<Region, SynthError>)
        requires
            old(self).wf(),
        ensures
            final(self).wf(),
            final(self).advice == old(self).advice,
            final(self).fixed == old(self).fixed,
            final(self).rows == old(self).rows,
            size <= old(self).rows - old(self).used ==> {
                &&& r == Ok::<Region, SynthError>((Region { start: old(self).used, size: size }))
                &&& final(self).used == old(self).used + size
            },
            size > old(self).rows - old(self).used ==> {
                &&& r == Err::<Region, SynthError>(SynthError::NotEnoughRows {
                    needed: size,
                    available: (old(self).rows - old(self).used) as usize,
                })
                &&& final(self).used == old(self).used
            },
    {
        if size <= self.rows - self.used {
            let start = self.used;
            self.used = self.used + size;
            Ok(Region { start, size })
        } else {
            Err(SynthError::NotEnoughRows { needed: size, available: self.rows - self.used })
        }
    }

    /// Reads the advice value at column `c` and signed absolute row `j`;
    /// cells outside the grid or never assigned read as zero.
    pub fn advice_at(&self, c: usize, j: i64) -> (r: Felt)
        requires
            self.wf(),
        ensures
            r.inv(),
            r@ == self.advice_val(c as int, j as int),
    {
        if 0 <= j && j < self.rows as i64 && c < self.advice.len() {
            let jj = j as usize;
            match self.advice[c][jj] {
                Some(f) => f,
                None => Felt::zero(),
            }
        } else {
            Felt::zero()
        }
    }

    /// Reads the fixed value at column `c` and signed absolute row `j`;
    /// cells outside the grid or never assigned read as zero.
    pub fn fixed_at(&self, c: usize, j: i64) -> (r: Felt)
        requires
            self.wf(),
        ensures
            r.inv(),
            r@ == self.fixed_val(c as int, j as int),
    {
        if 0 <= j && j < self.rows as i64 && c < self.fixed.len() {
            let jj = j as usize;
            match self.fixed[c][jj] {
                Some(f) => f,
                None => Felt::zero(),
            }
        } else {
            Felt::zero()
        }
    }
}

/// A table of `cols` blank value columns, each `rows` long.
fn blank_table(cols: usize, rows: usize) -> (t: Vec<Vec<Option<Felt>>>)
    ensures
        t@.len() == cols,
        forall|c: int| 0 <= c < cols ==> (#[trigger] t@[c])@.len() == rows,
        forall|c: int, r: int| #[trigger] cell_at(t@, c, r) is None,
{
    let mut t: Vec<Vec<Option<Felt>>> = Vec::new();
    for c in 0..cols
        invariant
            t@.len() == c,
            forall|i: int| 0 <= i < c ==> (#[trigger] t@[i])@.len() == rows,
            forall|i: int, r: int|
                0 <= i < c && 0 <= r < rows ==> (#[trigger] t@[i]@[r]) is None,
    {
        let mut col: Vec<Option<Felt>> = Vec::new();
        for r in 0..rows
            invariant
                col@.len() == r,
                forall|j: int| 0 <= j < r ==> (#[trigger] col@[j]) is None,
        {
            col.push(None);
        }
        t.push(col);
    }
    t
}

impl Region {
    /// Writes `v` into the advice cell at local `offset`, once; a second
    /// write to the same cell fails with `AssignmentConflict` and leaves the
    /// grid unchanged.
    pub fn assign_advice(&self, g: &mut Grid, col: Column, offset: usize, v: Felt) -> (r: Result<
        (),
        SynthError,
    >)
        requires
            old(g).wf(),
            v.inv(),
            col.kind == ColumnKind::Advice,
            col.index < old(g).advice@.len(),
            offset < self.size,
            self.start + self.size <= old(g).used,
        ensures
            final(g).wf(),
            final(g).rows == old(g).rows,
            final(g).used == old(g).used,
            final(g).fixed == old(g).fixed,
            final(g).advice@.len() == old(g).advice@.len(),
            cell_at(old(g).advice@, col.index as int, (self.start + offset) as int) is None ==> {
                &&& r == Ok::<(), SynthError>(())
                &&& cell_at(final(g).advice@, col.index as int, (self.start + offset) as int)
                    == Some(v)
                &&& forall|c: int, rr: int|
                    !(c == col.index && rr == self.start + offset) ==> #[trigger] cell_at(
                        final(g).advice@,
                        c,
                        rr,
                    ) == cell_at(old(g).advice@, c, rr)
            },
            cell_at(old(g).advice@, col.index as int, (self.start + offset) as int) is Some ==> {
                &&& r == Err::<(), SynthError>(SynthError::AssignmentConflict {
                    cell: (Cell { column: col, row: (self.start + offset) as usize }),
                })
                &&& *final(g) == *old(g)
            },
    {
        let row = self.start + offset;
        if g.advice[col.index][row].is_some() {
            Err(SynthError::AssignmentConflict { cell: Cell { column: col, row } })
        } else {
            g.advice[col.index][row] = Some(v);
            proof {
                assert forall|c: int, rr: int|
                    !(c == col.index && rr == row) implies #[trigger] cell_at(g.advice@, c, rr)
                    == cell_at(old(g).advice@, c, rr) by {
                    if 0 <= c < g.advice@.len() && c != col.index {
                        assert(g.advice@[c] == old(g).advice@[c]);
                    }
                }
                assert forall|c: int, rr: int|
                    ((#[trigger] cell_at(g.advice@, c, rr)) matches Some(f) ==> f.inv()) by {
                    if !(c == col.index && rr == row) {
                        assert(cell_at(g.advice@, c, rr) == cell_at(old(g).advice@, c, rr));
                    }
                }
                assert forall|c: int|
                    0 <= c < g.advice@.len() implies (#[trigger] g.advice@[c])@.len()
                    == g.rows by {
                    if c != col.index {
                        assert(g.advice@[c] == old(g).advice@[c]);
                    }
                }
            }
            Ok(())
        }
    }

    /// Writes `v` into the fixed cell at local `offset`, once; a second
    /// write to the same cell fails with `AssignmentConflict` and leaves the
    /// grid unchanged.
    pub fn assign_fixed(&self, g: &mut Grid, col: Column, offset: usize, v: Felt) -> (r: Result<
        (),
        SynthError,
    >)
        requires
            old(g).wf(),
            v.inv(),
            col.kind == ColumnKind::Fixed,
            col.index < old(g).fixed@.len(),
            offset < self.size,
            self.start + self.size <= old(g).used,
        ensures
            final(g).wf(),
            final(g).rows == old(g).rows,
            final(g).used == old(g).used,
            final(g).advice == old(g).advice,
            final(g).fixed@.len() == old(g).fixed@.len(),
            cell_at(old(g).fixed@, col.index as int, (self.start + offset) as int) is None ==> {
                &&& r == Ok::<(), SynthError>(())
                &&& cell_at(final(g).fixed@, col.index as int, (self.start + offset) as int)
                    == Some(v)
                &&& forall|c: int, rr: int|
                    !(c == col.index && rr == self.start + offset) ==> #[trigger] cell_at(
                        final(g).fixed@,
                        c,
                        rr,
                    ) == cell_at(old(g).fixed@, c, rr)
            },
            cell_at(old(g).fixed@, col.index as int, (self.start + offset) as int) is Some ==> {
                &&& r == Err::<(), SynthError>(SynthError::AssignmentConflict {
                    cell: (Cell { column: col, row: (self.start + offset) as usize }),
                })
                &&& *final(g) == *old(g)
            },
    {
        let row = self.start + offset;
        if g.fixed[col.index][row].is_some() {
            Err(SynthError::AssignmentConflict { cell: Cell { column: col, row } })
        } else {
            g.fixed[col.index][row] = Some(v);
            proof {
                assert forall|c: int, rr: int|
                    !(c == col.index && rr == row) implies #[trigger] cell_at(g.fixed@, c, rr)
                    == cell_at(old(g).fixed@, c, rr) by {
                    if 0 <= c < g.fixed@.len() && c != col.index {
                        assert(g.fixed@[c] == old(g).fixed@[c]);
                    }
                }
                assert forall|c: int, rr: int|
                    ((#[trigger] cell_at(g.fixed@, c, rr)) matches Some(f) ==> f.inv()) by {
                    if !(c == col.index && rr == row) {
                        assert(cell_at(g.fixed@, c, rr) == cell_at(old(g).fixed@, c, rr));
                    }
                }
                assert forall|c: int|
                    0 <= c < g.fixed@.len() implies (#[trigger] g.fixed@[c])@.len() == g.rows by {
                    if c != col.index {
                        assert(g.fixed@[c] == old(g).fixed@[c]);
                    }
                }
            }
            Ok(())
        }
    }
}

} // verus!
