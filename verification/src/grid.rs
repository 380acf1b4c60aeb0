//! The grid store: a fixed-size rectangular array of cells, row-major.

use vstd::prelude::*;
use crate::cell::Cell;

verus! {

/// The cell a row-major sequence holds at column `x`, row `y` of a grid
/// `w` cells wide.
pub open spec fn cell_at(g: Seq<Cell>, w: int, x: int, y: int) -> Cell {
    g[y * w + x]
}

/// Row-major indexing is a bijection between in-bounds coordinates and
/// positions of the backing sequence.
pub proof fn lemma_row_major(w: int, h: int, x: int, y: int)
    requires
        0 <= x < w,
        0 <= y < h,
    ensures
        0 <= y * w + x < w * h,
        (y * w + x) % w == x,
        (y * w + x) / w == y,
{
    assert(0 <= y * w + x < w * h) by (nonlinear_arith)
        requires
            0 <= x < w,
            0 <= y < h,
    ;
    vstd::arithmetic::div_mod::lemma_fundamental_div_mod_converse(y * w + x, w, y, x);
}

/// Every position of a row-major sequence is the cell of exactly one
/// in-bounds coordinate pair.
pub proof fn lemma_index_coords(w: int, h: int, i: int)
    requires
        0 < w,
        0 <= i < w * h,
    ensures
        0 <= i % w < w,
        0 <= i / w < h,
        (i / w) * w + (i % w) == i,
{
    vstd::arithmetic::div_mod::lemma_fundamental_div_mod(i, w);
    vstd::arithmetic::div_mod::lemma_mod_bound(i, w);
    assert((i / w) * w == w * (i / w)) by (nonlinear_arith);
    assert(0 <= i / w < h) by (nonlinear_arith)
        requires
            0 < w,
            0 <= i < w * h,
            i == w * (i / w) + i % w,
            0 <= i % w < w,
    ;
}

/// A fixed-size rectangular array of cells. The cell at column `x`, row `y`
/// sits at position `y * width + x` of the backing vector; row 0 is the
/// designated bottom edge of the world.
pub struct Grid {
    width: usize,
    height: usize,
    cells: Vec<Cell>,
}

impl View for Grid {
    type V = Seq<Cell>;

    closed spec fn view(&self) -> Seq<Cell> {
        self.cells@
    }
}

impl Grid {
    /// Well-formed: the backing vector holds exactly `width * height` cells.
    pub open spec fn wf(self) -> bool {
        self@.len() == self.width_spec() * self.height_spec()
            && self.width_spec() * self.height_spec() <= usize::MAX
    }

    pub closed spec fn width_spec(self) -> int {
        self.width as int
    }

    pub closed spec fn height_spec(self) -> int {
        self.height as int
    }

    /// Both grids have the same dimensions.
    pub open spec fn same_dims(self, other: Grid) -> bool {
        self.width_spec() == other.width_spec() && self.height_spec() == other.height_spec()
    }

    /// A grid of the given dimensions with every cell blank.
    pub fn new(width: usize, height: usize) -> (g: Grid)
        requires
            width * height <= usize::MAX,
        ensures
            g.wf(),
            g.width_spec() == width,
            g.height_spec() == height,
            g@.len() == width * height,
            forall|i: int| 0 <= i < g@.len() ==> g@[i] == Cell::blank_spec(),
    {
        let n = width * height;
        let mut cells: Vec<Cell> = Vec::new();
        let mut i: usize = 0;
        while i < n
            invariant
                i <= n,
                cells.len() == i,
                forall|j: int| 0 <= j < i ==> cells@[j] == Cell::blank_spec(),
            decreases n - i,
        {
            cells.push(Cell::blank());
            i = i + 1;
        }
        Grid { width, height, cells }
    }

    pub fn width(&self) -> (w: usize)
        ensures
            w == self.width_spec(),
    {
        self.width
    }

    pub fn height(&self) -> (h: usize)
        ensures
            h == self.height_spec(),
    {
        self.height
    }

    /// Reads the cell at in-bounds coordinates; out-of-range coordinates are
    /// a caller error, ruled out by the precondition rather than signalled.
    pub fn get(&self, x: usize, y: usize) -> (c: Cell)
        requires
            self.wf(),
            x < self.width_spec(),
            y < self.height_spec(),
        ensures
            c == cell_at(self@, self.width_spec(), x as int, y as int),
    {
        proof {
            lemma_row_major(
                self.width_spec(),
                self.height_spec(),
                x as int,
                y as int,
            );
        }
        self.cells[y * self.width + x]
    }

    /// Overwrites the cell at in-bounds coordinates.
    pub fn set(&mut self, x: usize, y: usize, c: Cell)
        requires
            old(self).wf(),
            x < old(self).width_spec(),
            y < old(self).height_spec(),
        ensures
            final(self).wf(),
            final(self).same_dims(*old(self)),
            final(self)@ == old(self)@.update(y * old(self).width_spec() + x, c),
    {
        proof {
            lemma_row_major(
                self.width_spec(),
                self.height_spec(),
                x as int,
                y as int,
            );
        }
        let i = y * self.width + x;
        self.cells.set(i, c);
    }

    /// A copy of this grid: same dimensions, same cells.
    pub fn duplicate(&self) -> (g: Grid)
        requires
            self.wf(),
        ensures
            g.wf(),
            g.same_dims(*self),
            g@ == self@,
    {
        let n = self.cells.len();
        let mut cells: Vec<Cell> = Vec::new();
        let mut i: usize = 0;
        while i < n
            invariant
                i <= n,
                n == self.cells@.len(),
                cells@ == self.cells@.take(i as int),
            decreases n - i,
        {
            cells.push(self.cells[i]);
            proof {
                assert(cells@ =~= self.cells@.take(i as int + 1));
            }
            i = i + 1;
        }
        proof {
            assert(cells@ =~= self.cells@);
        }
        Grid { width: self.width, height: self.height, cells }
    }
}

} // verus!
