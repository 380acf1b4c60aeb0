//! The update-kernel boundary.
//!
//! The per-cell physics rules are pluggable: the engine only fixes when and
//! on which cells a kernel runs and which seed it is given. A kernel is a
//! pure function of the previous grid, the partially written next grid, the
//! cell's coordinate and the sub-pass seed; the trait binds each
//! implementation to its own specification, which is what makes a full step
//! deterministic.

use vstd::prelude::*;
use crate::cell::Cell;
use crate::cell::CellId;
use crate::grid::cell_at;
use crate::grid::Grid;

verus! {

/// One per-cell update rule, invoked once per in-bounds cell per step.
///
/// `prev` is the fully committed grid of the previous step, read-only.
/// `partial` is the write target as it stood when this cell's sub-pass
/// began: cells of earlier phases are already updated, all others are still
/// blank. The invocation must produce exactly the cell written at `(x, y)`
/// and may read any cell of either grid, though rules are expected to stay
/// within the 3x3 neighbourhood of their own coordinate.
pub trait UpdateKernel {
    /// The cell this rule produces at `(x, y)` — a function of its
    /// arguments and of nothing else.
    spec fn next_cell(
        &self,
        prev: Seq<Cell>,
        partial: Seq<Cell>,
        w: int,
        h: int,
        x: int,
        y: int,
        seed: u32,
    ) -> Cell;

    /// Runs the rule for the cell at `(x, y)`.
    fn update(&self, prev: &Grid, partial: &Grid, x: usize, y: usize, seed: u32) -> (c: Cell)
        requires
            prev.wf(),
            partial.wf(),
            prev.same_dims(*partial),
            x < prev.width_spec(),
            y < prev.height_spec(),
        ensures
            c == self.next_cell(
                prev@,
                partial@,
                prev.width_spec(),
                prev.height_spec(),
                x as int,
                y as int,
                seed,
            ),
    ;
}

/// A minimal falling rule: sand falls one row toward row 0 when the cell
/// below it is void. It reads the previous grid only, so the produced grid
/// does not depend on phase order or seeds.
pub struct FallKernel;

impl UpdateKernel for FallKernel {
    open spec fn next_cell(
        &self,
        prev: Seq<Cell>,
        partial: Seq<Cell>,
        w: int,
        h: int,
        x: int,
        y: int,
        seed: u32,
    ) -> Cell {
        let here = cell_at(prev, w, x, y);
        if here.id == CellId::Sand && y > 0 && cell_at(prev, w, x, y - 1).id == CellId::Void {
            Cell::blank_spec()
        } else if here.id == CellId::Void && y + 1 < h
            && cell_at(prev, w, x, y + 1).id == CellId::Sand {
            cell_at(prev, w, x, y + 1)
        } else {
            here
        }
    }

    fn update(&self, prev: &Grid, partial: &Grid, x: usize, y: usize, seed: u32) -> (c: Cell) {
        let h = prev.height();
        let here = prev.get(x, y);
        if here.id == CellId::Sand && y > 0 && prev.get(x, y - 1).id == CellId::Void {
            Cell::blank()
        } else if here.id == CellId::Void && y + 1 < h && prev.get(x, y + 1).id == CellId::Sand {
            prev.get(x, y + 1)
        } else {
            here
        }
    }
}

/// A diagnostic rule: every cell keeps its identity and records the seed of
/// the sub-pass that visited it in its scratch state. Stepping with it shows
/// which seed reached which cell.
pub struct SeedKernel;

impl UpdateKernel for SeedKernel {
    open spec fn next_cell(
        &self,
        prev: Seq<Cell>,
        partial: Seq<Cell>,
        w: int,
        h: int,
        x: int,
        y: int,
        seed: u32,
    ) -> Cell {
        Cell { id: cell_at(prev, w, x, y).id, state: seed }
    }

    fn update(&self, prev: &Grid, partial: &Grid, x: usize, y: usize, seed: u32) -> (c: Cell) {
        let here = prev.get(x, y);
        Cell { id: here.id, state: seed }
    }
}

} // verus!
