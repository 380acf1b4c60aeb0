//! The stepping engine.
//!
//! A `Simulation` owns the authoritative grid and the step counter. One
//! `step` consumes the committed grid read-only while producing the next
//! grid in nine ordered sub-passes, one per phase, then commits the result
//! and advances the counter by nine, wrapping silently. Each sub-pass hands
//! the kernel a distinct seed, the counter value advanced by the phase
//! index; the counter is the sole source of variability, so a step is a pure
//! function of the kernel, the grid contents and the counter.

use vstd::prelude::*;
use vstd::arithmetic::div_mod::lemma_fundamental_div_mod;
use vstd::arithmetic::div_mod::lemma_fundamental_div_mod_converse;
use vstd::arithmetic::div_mod::lemma_mod_bound;
use vstd::arithmetic::div_mod::lemma_small_mod;
use crate::cell::Cell;
use crate::cell::CellId;
use crate::cursor::disk_hit;
use crate::cursor::in_disk;
use crate::cursor::paint_applied;
use crate::cursor::spec_cursor;
use crate::cursor::Cursor;
use crate::grid::cell_at;
use crate::grid::lemma_index_coords;
use crate::grid::lemma_row_major;
use crate::grid::Grid;
use crate::kernel::UpdateKernel;
use crate::phase::in_phase;
use crate::phase::lanes;
use crate::phase::lemma_phase_partition;
use crate::phase::phase_of;

verus! {

/// The seed handed to sub-pass `p` of a step that starts with counter value
/// `c`: the counter advanced by `p`, wrapping modulo 2^32.
pub open spec fn seed_for(c: u32, p: int) -> u32 {
    ((c + p) % 0x1_0000_0000) as u32
}

/// One sub-pass over the write target `cur`: every cell of phase `p` is
/// replaced by the kernel's output for its coordinate, computed against the
/// committed grid `prev` and the target as the sub-pass found it; all other
/// cells keep their value. Within one sub-pass every invocation reads the
/// same two grids, which is what makes its data-parallel cells free of
/// write races.
pub open spec fn phase_pass<K: UpdateKernel>(
    k: K,
    prev: Seq<Cell>,
    cur: Seq<Cell>,
    w: int,
    h: int,
    p: int,
    seed: u32,
) -> Seq<Cell> {
    Seq::new(
        cur.len(),
        |i: int|
            if in_phase(i % w, i / w, p) {
                k.next_cell(prev, cur, w, h, i % w, i / w, seed)
            } else {
                cur[i]
            },
    )
}

/// The write target after the first `n` sub-passes of a step that reads
/// `prev` and starts with counter value `c`: a blank target, then one
/// `phase_pass` per phase in ascending order, each with its own seed.
pub open spec fn sub_passes<K: UpdateKernel>(
    k: K,
    prev: Seq<Cell>,
    w: int,
    h: int,
    c: u32,
    n: int,
) -> Seq<Cell>
    decreases n,
{
    if n <= 0 {
        Seq::new(prev.len(), |i: int| Cell::blank_spec())
    } else {
        phase_pass(
            k,
            prev,
            sub_passes(k, prev, w, h, c, n - 1),
            w,
            h,
            n - 1,
            seed_for(c, n - 1),
        )
    }
}

/// The grid one full step commits: all nine sub-passes in order.
pub open spec fn step_spec<K: UpdateKernel>(
    k: K,
    prev: Seq<Cell>,
    w: int,
    h: int,
    c: u32,
) -> Seq<Cell> {
    sub_passes(k, prev, w, h, c, 9)
}

/// Whether the sub-pass working in row-major order over its local
/// invocation grid has already visited the phase cell at `(x, y)` when it
/// stands at local column `lx` of local row `ly`.
spec fn done_before(x: int, y: int, lx: int, ly: int) -> bool {
    y / 3 < ly || (y / 3 == ly && x / 3 < lx)
}

/// The state of the write target in the middle of one sub-pass: phase cells
/// already visited hold the kernel's output, everything else still holds
/// what the sub-pass found.
spec fn phase_mid<K: UpdateKernel>(
    k: K,
    prev: Seq<Cell>,
    cur: Seq<Cell>,
    w: int,
    h: int,
    p: int,
    seed: u32,
    lx: int,
    ly: int,
    g: Seq<Cell>,
) -> bool {
    forall|x: int, y: int|
        0 <= x < w && 0 <= y < h ==> #[trigger] cell_at(g, w, x, y) == (
        if in_phase(x, y, p) && done_before(x, y, lx, ly) {
            k.next_cell(prev, cur, w, h, x, y, seed)
        } else {
            cell_at(cur, w, x, y)
        })
}

proof fn lemma_phase_mid_init<K: UpdateKernel>(
    k: K,
    prev: Seq<Cell>,
    cur: Seq<Cell>,
    w: int,
    h: int,
    p: int,
    seed: u32,
)
    ensures
        phase_mid(k, prev, cur, w, h, p, seed, 0, 0, cur),
{
    assert forall|x: int, y: int| 0 <= x < w && 0 <= y < h implies #[trigger] cell_at(
        cur,
        w,
        x,
        y,
    ) == (
    if in_phase(x, y, p) && done_before(x, y, 0, 0) {
        k.next_cell(prev, cur, w, h, x, y, seed)
    } else {
        cell_at(cur, w, x, y)
    }) by {
        lemma_fundamental_div_mod(x, 3);
        lemma_mod_bound(x, 3);
        lemma_fundamental_div_mod(y, 3);
        lemma_mod_bound(y, 3);
    }
}

proof fn lemma_cell_done<K: UpdateKernel>(
    k: K,
    prev: Seq<Cell>,
    cur: Seq<Cell>,
    w: int,
    h: int,
    p: int,
    seed: u32,
    lx: int,
    ly: int,
    x: int,
    y: int,
    g0: Seq<Cell>,
    g1: Seq<Cell>,
)
    requires
        0 <= p < 9,
        0 <= lx,
        0 <= ly,
        x == 3 * lx + p % 3,
        y == 3 * ly + p / 3,
        0 <= x < w,
        0 <= y < h,
        g0.len() == w * h,
        phase_mid(k, prev, cur, w, h, p, seed, lx, ly, g0),
        g1 == g0.update(y * w + x, k.next_cell(prev, cur, w, h, x, y, seed)),
    ensures
        phase_mid(k, prev, cur, w, h, p, seed, lx + 1, ly, g1),
{
    lemma_mod_bound(p, 3);
    lemma_fundamental_div_mod(p, 3);
    lemma_row_major(w, h, x, y);
    lemma_fundamental_div_mod_converse(x, 3, lx, p % 3);
    lemma_fundamental_div_mod_converse(y, 3, ly, p / 3);
    assert forall|xi: int, yi: int| 0 <= xi < w && 0 <= yi < h implies #[trigger] cell_at(
        g1,
        w,
        xi,
        yi,
    ) == (
    if in_phase(xi, yi, p) && done_before(xi, yi, lx + 1, ly) {
        k.next_cell(prev, cur, w, h, xi, yi, seed)
    } else {
        cell_at(cur, w, xi, yi)
    }) by {
        lemma_row_major(w, h, xi, yi);
        lemma_fundamental_div_mod(xi, 3);
        lemma_mod_bound(xi, 3);
        lemma_fundamental_div_mod(yi, 3);
        lemma_mod_bound(yi, 3);
        assert(cell_at(g0, w, xi, yi) == g0[yi * w + xi]);
        if yi * w + xi == y * w + x {
            assert(xi == x && yi == y);
        }
    }
}

proof fn lemma_col_skip<K: UpdateKernel>(
    k: K,
    prev: Seq<Cell>,
    cur: Seq<Cell>,
    w: int,
    h: int,
    p: int,
    seed: u32,
    lx: int,
    ly: int,
    g: Seq<Cell>,
)
    requires
        0 <= p < 9,
        0 <= lx,
        0 <= ly,
        3 * lx + p % 3 >= w,
        phase_mid(k, prev, cur, w, h, p, seed, lx, ly, g),
    ensures
        phase_mid(k, prev, cur, w, h, p, seed, lx + 1, ly, g),
{
    lemma_mod_bound(p, 3);
    assert forall|xi: int, yi: int| 0 <= xi < w && 0 <= yi < h implies #[trigger] cell_at(
        g,
        w,
        xi,
        yi,
    ) == (
    if in_phase(xi, yi, p) && done_before(xi, yi, lx + 1, ly) {
        k.next_cell(prev, cur, w, h, xi, yi, seed)
    } else {
        cell_at(cur, w, xi, yi)
    }) by {
        lemma_fundamental_div_mod(xi, 3);
        lemma_mod_bound(xi, 3);
        lemma_fundamental_div_mod(yi, 3);
        lemma_mod_bound(yi, 3);
    }
}

proof fn lemma_row_done<K: UpdateKernel>(
    k: K,
    prev: Seq<Cell>,
    cur: Seq<Cell>,
    w: int,
    h: int,
    p: int,
    seed: u32,
    wc: int,
    ly: int,
    g: Seq<Cell>,
)
    requires
        0 <= ly,
        w <= 3 * wc,
        phase_mid(k, prev, cur, w, h, p, seed, wc, ly, g),
    ensures
        phase_mid(k, prev, cur, w, h, p, seed, 0, ly + 1, g),
{
    assert forall|xi: int, yi: int| 0 <= xi < w && 0 <= yi < h implies #[trigger] cell_at(
        g,
        w,
        xi,
        yi,
    ) == (
    if in_phase(xi, yi, p) && done_before(xi, yi, 0, ly + 1) {
        k.next_cell(prev, cur, w, h, xi, yi, seed)
    } else {
        cell_at(cur, w, xi, yi)
    }) by {
        lemma_fundamental_div_mod(xi, 3);
        lemma_mod_bound(xi, 3);
        lemma_fundamental_div_mod(yi, 3);
        lemma_mod_bound(yi, 3);
    }
}

proof fn lemma_row_skip<K: UpdateKernel>(
    k: K,
    prev: Seq<Cell>,
    cur: Seq<Cell>,
    w: int,
    h: int,
    p: int,
    seed: u32,
    ly: int,
    g: Seq<Cell>,
)
    requires
        0 <= p < 9,
        0 <= ly,
        3 * ly + p / 3 >= h,
        phase_mid(k, prev, cur, w, h, p, seed, 0, ly, g),
    ensures
        phase_mid(k, prev, cur, w, h, p, seed, 0, ly + 1, g),
{
    lemma_mod_bound(p, 3);
    lemma_fundamental_div_mod(p, 3);
    assert forall|xi: int, yi: int| 0 <= xi < w && 0 <= yi < h implies #[trigger] cell_at(
        g,
        w,
        xi,
        yi,
    ) == (
    if in_phase(xi, yi, p) && done_before(xi, yi, 0, ly + 1) {
        k.next_cell(prev, cur, w, h, xi, yi, seed)
    } else {
        cell_at(cur, w, xi, yi)
    }) by {
        lemma_fundamental_div_mod(xi, 3);
        lemma_mod_bound(xi, 3);
        lemma_fundamental_div_mod(yi, 3);
        lemma_mod_bound(yi, 3);
    }
}

proof fn lemma_phase_mid_complete<K: UpdateKernel>(
    k: K,
    prev: Seq<Cell>,
    cur: Seq<Cell>,
    w: int,
    h: int,
    p: int,
    seed: u32,
    hc: int,
    g: Seq<Cell>,
)
    requires
        0 <= w,
        0 <= h,
        h <= 3 * hc,
        cur.len() == w * h,
        g.len() == w * h,
        phase_mid(k, prev, cur, w, h, p, seed, 0, hc, g),
    ensures
        g == phase_pass(k, prev, cur, w, h, p, seed),
{
    assert forall|i: int| 0 <= i < g.len() implies g[i] == phase_pass(
        k,
        prev,
        cur,
        w,
        h,
        p,
        seed,
    )[i] by {
        assert(w > 0 && h > 0) by (nonlinear_arith)
            requires
                0 <= w,
                0 <= h,
                0 <= i < w * h,
        ;
        lemma_index_coords(w, h, i);
        lemma_fundamental_div_mod(i / w, 3);
        lemma_mod_bound(i / w, 3);
        assert(cell_at(g, w, i % w, i / w) == g[i]);
        assert(cell_at(cur, w, i % w, i / w) == cur[i]);
        assert(done_before(i % w, i / w, 0, hc));
    }
    assert(g =~= phase_pass(k, prev, cur, w, h, p, seed));
}

/// The state of the grid in the middle of one cursor pass working in
/// row-major order: cells already visited hold their painted value,
/// everything else still holds its original value.
spec fn paint_mid(
    g0: Seq<Cell>,
    w: int,
    h: int,
    c: Cursor,
    x: int,
    y: int,
    g: Seq<Cell>,
) -> bool {
    forall|xi: int, yi: int|
        0 <= xi < w && 0 <= yi < h ==> #[trigger] cell_at(g, w, xi, yi) == (
        if (yi < y || (yi == y && xi < x)) && c.enabled && in_disk(
            c.x as int,
            c.y as int,
            c.radius as int,
            xi,
            yi,
        ) {
            Cell { id: c.paint_id, state: cell_at(g0, w, xi, yi).state }
        } else {
            cell_at(g0, w, xi, yi)
        })
}

proof fn lemma_paint_cell(
    g0: Seq<Cell>,
    w: int,
    h: int,
    c: Cursor,
    x: int,
    y: int,
    gb: Seq<Cell>,
    ga: Seq<Cell>,
)
    requires
        0 <= x < w,
        0 <= y < h,
        g0.len() == w * h,
        gb.len() == w * h,
        paint_mid(g0, w, h, c, x, y, gb),
        if c.enabled && in_disk(c.x as int, c.y as int, c.radius as int, x, y) {
            ga == gb.update(
                y * w + x,
                Cell { id: c.paint_id, state: cell_at(gb, w, x, y).state },
            )
        } else {
            ga == gb
        },
    ensures
        paint_mid(g0, w, h, c, x + 1, y, ga),
{
    lemma_row_major(w, h, x, y);
    assert forall|xi: int, yi: int| 0 <= xi < w && 0 <= yi < h implies #[trigger] cell_at(
        ga,
        w,
        xi,
        yi,
    ) == (
    if (yi < y || (yi == y && xi < x + 1)) && c.enabled && in_disk(
        c.x as int,
        c.y as int,
        c.radius as int,
        xi,
        yi,
    ) {
        Cell { id: c.paint_id, state: cell_at(g0, w, xi, yi).state }
    } else {
        cell_at(g0, w, xi, yi)
    }) by {
        lemma_row_major(w, h, xi, yi);
        assert(cell_at(gb, w, xi, yi) == gb[yi * w + xi]);
        if yi * w + xi == y * w + x {
            assert(xi == x && yi == y);
        }
    }
}

/// One sub-pass: runs the kernel over the local invocation grid of phase
/// `p`, `ceil(w / 3)` by `ceil(h / 3)` invocations, each mapped to its
/// absolute coordinate through the phase offset; invocations whose
/// coordinate falls outside the grid are skipped. `cur` is the write target
/// as this sub-pass found it; every invocation reads that same snapshot.
fn apply_phase<K: UpdateKernel>(
    kernel: &K,
    prev: &Grid,
    cur: &Grid,
    p: usize,
    seed: u32,
) -> (out: Grid)
    requires
        prev.wf(),
        cur.wf(),
        prev.same_dims(*cur),
        p < 9,
    ensures
        out.wf(),
        out.same_dims(*cur),
        out@ == phase_pass(
            *kernel,
            prev@,
            cur@,
            prev.width_spec(),
            prev.height_spec(),
            p as int,
            seed,
        ),
{
    let w = prev.width();
    let h = prev.height();
    let wc = lanes(w);
    let hc = lanes(h);
    let ox = p % 3;
    let oy = p / 3;
    let mut out = cur.duplicate();
    proof {
        lemma_phase_mid_init(*kernel, prev@, cur@, w as int, h as int, p as int, seed);
    }
    let mut ly: usize = 0;
    while ly < hc
        invariant
            prev.wf(),
            cur.wf(),
            out.wf(),
            prev.same_dims(*cur),
            out.same_dims(*cur),
            w == prev.width_spec(),
            h == prev.height_spec(),
            p < 9,
            ox == p as int % 3,
            oy == p as int / 3,
            w <= 3 * wc,
            3 * wc <= w + 2,
            h <= 3 * hc,
            3 * hc <= h + 2,
            ly <= hc,
            phase_mid(
                *kernel,
                prev@,
                cur@,
                w as int,
                h as int,
                p as int,
                seed,
                0,
                ly as int,
                out@,
            ),
        decreases hc - ly,
    {
        let y3 = 3 * ly;
        if y3 < h && oy < h - y3 {
            let y = y3 + oy;
            let mut lx: usize = 0;
            while lx < wc
                invariant
                    prev.wf(),
                    cur.wf(),
                    out.wf(),
                    prev.same_dims(*cur),
                    out.same_dims(*cur),
                    w == prev.width_spec(),
                    h == prev.height_spec(),
                    p < 9,
                    ox == p as int % 3,
                    oy == p as int / 3,
                    w <= 3 * wc,
                    3 * wc <= w + 2,
                    lx <= wc,
                    y == 3 * ly + oy,
                    y < h,
                    phase_mid(
                        *kernel,
                        prev@,
                        cur@,
                        w as int,
                        h as int,
                        p as int,
                        seed,
                        lx as int,
                        ly as int,
                        out@,
                    ),
                decreases wc - lx,
            {
                let x3 = 3 * lx;
                if x3 < w && ox < w - x3 {
                    let x = x3 + ox;
                    let c = kernel.update(prev, cur, x, y, seed);
                    proof {
                        lemma_row_major(w as int, h as int, x as int, y as int);
                    }
                    let ghost out0 = out@;
                    out.set(x, y, c);
                    proof {
                        lemma_cell_done(
                            *kernel,
                            prev@,
                            cur@,
                            w as int,
                            h as int,
                            p as int,
                            seed,
                            lx as int,
                            ly as int,
                            x as int,
                            y as int,
                            out0,
                            out@,
                        );
                    }
                } else {
                    proof {
                        lemma_col_skip(
                            *kernel,
                            prev@,
                            cur@,
                            w as int,
                            h as int,
                            p as int,
                            seed,
                            lx as int,
                            ly as int,
                            out@,
                        );
                    }
                }
                lx = lx + 1;
            }
            proof {
                lemma_row_done(
                    *kernel,
                    prev@,
                    cur@,
                    w as int,
                    h as int,
                    p as int,
                    seed,
                    wc as int,
                    ly as int,
                    out@,
                );
            }
        } else {
            proof {
                lemma_row_skip(
                    *kernel,
                    prev@,
                    cur@,
                    w as int,
                    h as int,
                    p as int,
                    seed,
                    ly as int,
                    out@,
                );
            }
        }
        ly = ly + 1;
    }
    proof {
        lemma_phase_mid_complete(
            *kernel,
            prev@,
            cur@,
            w as int,
            h as int,
            p as int,
            seed,
            hc as int,
            out@,
        );
    }
    out
}

/// The engine: the authoritative grid and the step counter.
pub struct Simulation {
    grid: Grid,
    counter: u32,
}

impl Simulation {
    /// Well-formed: the grid's backing store matches its dimensions.
    pub closed spec fn wf(self) -> bool {
        self.grid.wf()
    }

    /// The committed grid's cells, row-major.
    pub closed spec fn grid_view(self) -> Seq<Cell> {
        self.grid@
    }

    pub closed spec fn width_spec(self) -> int {
        self.grid.width_spec()
    }

    pub closed spec fn height_spec(self) -> int {
        self.grid.height_spec()
    }

    /// The step counter: a wrapping seed source with no further meaning.
    pub closed spec fn counter_spec(self) -> u32 {
        self.counter
    }

    /// A simulation over a blank grid of the given dimensions, counter at
    /// zero. The dimensions are fixed for the simulation's lifetime.
    pub fn new(width: usize, height: usize) -> (s: Simulation)
        requires
            width * height <= usize::MAX,
        ensures
            s.wf(),
            s.width_spec() == width,
            s.height_spec() == height,
            s.counter_spec() == 0,
            s.grid_view().len() == width * height,
            forall|i: int| 0 <= i < s.grid_view().len() ==> s.grid_view()[i] == Cell::blank_spec(),
    {
        Simulation { grid: Grid::new(width, height), counter: 0 }
    }

    pub fn width(&self) -> (w: usize)
        ensures
            w == self.width_spec(),
    {
        self.grid.width()
    }

    pub fn height(&self) -> (h: usize)
        ensures
            h == self.height_spec(),
    {
        self.grid.height()
    }

    pub fn counter(&self) -> (c: u32)
        ensures
            c == self.counter_spec(),
    {
        self.counter
    }

    /// Seeds the step counter, for reproducible runs; the grid is untouched.
    pub fn set_counter(&mut self, c: u32)
        ensures
            final(self).counter_spec() == c,
            final(self).grid_view() == old(self).grid_view(),
            final(self).width_spec() == old(self).width_spec(),
            final(self).height_spec() == old(self).height_spec(),
            final(self).wf() == old(self).wf(),
    {
        self.counter = c;
    }

    /// Reads one cell of the committed grid; out-of-range coordinates are a
    /// caller error, ruled out here rather than signalled at run time.
    pub fn read(&self, x: usize, y: usize) -> (c: Cell)
        requires
            self.wf(),
            x < self.width_spec(),
            y < self.height_spec(),
        ensures
            c == cell_at(self.grid_view(), self.width_spec(), x as int, y as int),
    {
        self.grid.get(x, y)
    }

    /// Overwrites one cell of the committed grid, a single-cell edit outside
    /// the stepping cadence.
    pub fn write_cell(&mut self, x: usize, y: usize, c: Cell)
        requires
            old(self).wf(),
            x < old(self).width_spec(),
            y < old(self).height_spec(),
        ensures
            final(self).wf(),
            final(self).width_spec() == old(self).width_spec(),
            final(self).height_spec() == old(self).height_spec(),
            final(self).counter_spec() == old(self).counter_spec(),
            final(self).grid_view() == old(self).grid_view().update(
                y * old(self).width_spec() + x,
                c,
            ),
    {
        self.grid.set(x, y, c);
    }

    /// A read-only view of the committed grid, for presentation; valid
    /// between steps, never during one.
    pub fn current_grid_view(&self) -> (g: &Grid)
        ensures
            g.wf() == self.wf(),
            g@ == self.grid_view(),
            g.width_spec() == self.width_spec(),
            g.height_spec() == self.height_spec(),
    {
        &self.grid
    }

    /// Runs one cursor edit pass over the committed grid, outside the
    /// stepping cadence: while the cursor is enabled, every in-bounds cell
    /// within its disk has its identity overwritten and keeps its scratch
    /// state; everything else — and, with the cursor disabled, everything —
    /// is bitwise unchanged. The pass runs either strictly before or
    /// strictly after a step, never during one.
    pub fn paint(&mut self, cursor: &Cursor)
        requires
            old(self).wf(),
            cursor.wf(),
        ensures
            final(self).wf(),
            final(self).width_spec() == old(self).width_spec(),
            final(self).height_spec() == old(self).height_spec(),
            final(self).counter_spec() == old(self).counter_spec(),
            paint_applied(
                old(self).grid_view(),
                old(self).width_spec(),
                old(self).height_spec(),
                *cursor,
                final(self).grid_view(),
            ),
            !cursor.enabled ==> final(self).grid_view() == old(self).grid_view(),
    {
        let w = self.grid.width();
        let h = self.grid.height();
        let ghost g0 = self.grid@;
        let mut y: usize = 0;
        while y < h
            invariant
                self.grid.wf(),
                w == self.grid.width_spec(),
                h == self.grid.height_spec(),
                self.counter == old(self).counter,
                cursor.wf(),
                g0.len() == w * h,
                y <= h,
                paint_mid(g0, w as int, h as int, *cursor, 0, y as int, self.grid@),
            decreases h - y,
        {
            let mut x: usize = 0;
            while x < w
                invariant
                    self.grid.wf(),
                    w == self.grid.width_spec(),
                    h == self.grid.height_spec(),
                    self.counter == old(self).counter,
                    cursor.wf(),
                    g0.len() == w * h,
                    x <= w,
                    y < h,
                    paint_mid(g0, w as int, h as int, *cursor, x as int, y as int, self.grid@),
                decreases w - x,
            {
                let ghost gb = self.grid@;
                if cursor.enabled && disk_hit(cursor.x, cursor.y, cursor.radius, x, y) {
                    let here = self.grid.get(x, y);
                    self.grid.set(x, y, Cell { id: cursor.paint_id, state: here.state });
                }
                proof {
                    lemma_paint_cell(
                        g0,
                        w as int,
                        h as int,
                        *cursor,
                        x as int,
                        y as int,
                        gb,
                        self.grid@,
                    );
                }
                x = x + 1;
            }
            y = y + 1;
        }
        proof {
            if !cursor.enabled {
                assert forall|i: int| 0 <= i < g0.len() implies self.grid@[i] == g0[i] by {
                    assert(w as int > 0 && h as int > 0) by (nonlinear_arith)
                        requires
                            0 <= i < w as int * h as int,
                            0 <= w as int,
                            0 <= h as int,
                    ;
                    lemma_index_coords(w as int, h as int, i);
                    assert(cell_at(self.grid@, w as int, i % (w as int), i / (w as int))
                        == cell_at(g0, w as int, i % (w as int), i / (w as int)));
                }
                assert(self.grid@ =~= g0);
            }
        }
    }

    /// Builds the cursor a paint request describes — the radius clamped
    /// into `[1, 20]` — and runs one cursor edit pass with it.
    pub fn set_cursor(&mut self, enabled: bool, radius: u32, position: [u32; 2], cell_id: CellId)
        requires
            old(self).wf(),
        ensures
            final(self).wf(),
            final(self).width_spec() == old(self).width_spec(),
            final(self).height_spec() == old(self).height_spec(),
            final(self).counter_spec() == old(self).counter_spec(),
            paint_applied(
                old(self).grid_view(),
                old(self).width_spec(),
                old(self).height_spec(),
                spec_cursor(enabled, radius, position, cell_id),
                final(self).grid_view(),
            ),
            !enabled ==> final(self).grid_view() == old(self).grid_view(),
    {
        let cursor = Cursor::new(enabled, radius, position, cell_id);
        self.paint(&cursor);
    }

    /// One full simulation step: nine ordered sub-passes over a blank write
    /// target, reading the committed grid, then the commit and the counter
    /// advance. The result is exactly `step_spec` of the old state — a step
    /// has no entropy source beyond the counter.
    pub fn step<K: UpdateKernel>(&mut self, kernel: &K)
        requires
            old(self).wf(),
        ensures
            final(self).wf(),
            final(self).width_spec() == old(self).width_spec(),
            final(self).height_spec() == old(self).height_spec(),
            final(self).grid_view() == step_spec(
                *kernel,
                old(self).grid_view(),
                old(self).width_spec(),
                old(self).height_spec(),
                old(self).counter_spec(),
            ),
            final(self).counter_spec() == seed_for(old(self).counter_spec(), 9),
            final(self).counter_spec() as int == (old(self).counter_spec() + 9) % 0x1_0000_0000,
    {
        let ghost c0 = self.counter;
        let prev = self.grid.duplicate();
        let w = prev.width();
        let h = prev.height();
        let mut next = Grid::new(w, h);
        proof {
            assert(next@ =~= sub_passes(
                *kernel,
                prev@,
                w as int,
                h as int,
                c0,
                0,
            ));
        }
        let mut p: usize = 0;
        while p < 9
            invariant
                p <= 9,
                prev.wf(),
                next.wf(),
                prev.same_dims(next),
                w == prev.width_spec(),
                h == prev.height_spec(),
                self.counter == c0,
                next@ == sub_passes(*kernel, prev@, w as int, h as int, c0, p as int),
            decreases 9 - p,
        {
            let seed = self.counter.wrapping_add(p as u32);
            proof {
                if c0 + p <= u32::MAX {
                    lemma_small_mod((c0 + p) as nat, 0x1_0000_0000nat);
                } else {
                    lemma_fundamental_div_mod_converse(
                        c0 + p,
                        0x1_0000_0000,
                        1,
                        c0 + p - 0x1_0000_0000,
                    );
                }
                assert(seed == seed_for(c0, p as int));
            }
            next = apply_phase(kernel, &prev, &next, p, seed);
            p = p + 1;
        }
        self.grid = next;
        let c9 = self.counter.wrapping_add(9);
        proof {
            if c0 + 9 <= u32::MAX {
                lemma_small_mod((c0 + 9) as nat, 0x1_0000_0000nat);
            } else {
                lemma_fundamental_div_mod_converse(
                    c0 + 9,
                    0x1_0000_0000,
                    1,
                    c0 + 9 - 0x1_0000_0000,
                );
            }
        }
        self.counter = c9;
    }
}

/// Every prefix of a step's sub-passes keeps the write target the size of
/// the grid.
pub proof fn lemma_sub_passes_len<K: UpdateKernel>(
    k: K,
    prev: Seq<Cell>,
    w: int,
    h: int,
    c: u32,
    n: int,
)
    ensures
        sub_passes(k, prev, w, h, c, n).len() == prev.len(),
    decreases n,
{
    if n > 0 {
        lemma_sub_passes_len(k, prev, w, h, c, n - 1);
    }
}

/// Once a cell's own phase has run, no later sub-pass of the step touches
/// it again.
proof fn lemma_cell_stable<K: UpdateKernel>(
    k: K,
    prev: Seq<Cell>,
    w: int,
    h: int,
    c: u32,
    x: int,
    y: int,
    n: int,
)
    requires
        prev.len() == w * h,
        0 <= x < w,
        0 <= y < h,
        phase_of(x, y) < n,
    ensures
        cell_at(sub_passes(k, prev, w, h, c, n), w, x, y) == cell_at(
            sub_passes(k, prev, w, h, c, phase_of(x, y) + 1),
            w,
            x,
            y,
        ),
    decreases n,
{
    lemma_phase_partition(x, y);
    lemma_row_major(w, h, x, y);
    if n > phase_of(x, y) + 1 {
        lemma_cell_stable(k, prev, w, h, c, x, y, n - 1);
        lemma_sub_passes_len(k, prev, w, h, c, n - 1);
    }
}

/// Exactly-once update: the grid a full step commits holds, at every cell,
/// the kernel's output for that cell as computed by the cell's own phase —
/// against the committed previous grid, the write target as that phase
/// found it, and that phase's seed. No other sub-pass writes the cell.
pub proof fn lemma_step_writes_each_cell_once<K: UpdateKernel>(
    k: K,
    prev: Seq<Cell>,
    w: int,
    h: int,
    c: u32,
    x: int,
    y: int,
)
    requires
        prev.len() == w * h,
        0 <= x < w,
        0 <= y < h,
    ensures
        cell_at(step_spec(k, prev, w, h, c), w, x, y) == k.next_cell(
            prev,
            sub_passes(k, prev, w, h, c, phase_of(x, y)),
            w,
            h,
            x,
            y,
            seed_for(c, phase_of(x, y)),
        ),
{
    lemma_phase_partition(x, y);
    lemma_row_major(w, h, x, y);
    lemma_sub_passes_len(k, prev, w, h, c, phase_of(x, y));
    lemma_cell_stable(k, prev, w, h, c, x, y, 9);
}

/// Determinism: a step is a pure function of the kernel, the grid contents
/// and the step counter. Two runs from identical inputs commit identical
/// grids and leave identical counters.
pub proof fn lemma_step_deterministic<K: UpdateKernel>(
    k: K,
    g1: Seq<Cell>,
    g2: Seq<Cell>,
    w: int,
    h: int,
    c1: u32,
    c2: u32,
)
    requires
        g1 == g2,
        c1 == c2,
    ensures
        step_spec(k, g1, w, h, c1) == step_spec(k, g2, w, h, c2),
        seed_for(c1, 9) == seed_for(c2, 9),
{
}

} // verus!
