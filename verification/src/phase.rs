//! The partition scheduler's phase model.
//!
//! A step overlays the grid with a repeating 3x3 pattern of nine phases,
//! indexed 0 to 8 in row-major order of their offsets `(ox, oy) = (p % 3,
//! p / 3)`. One sub-pass per phase, in ascending phase order, updates exactly
//! the cells whose position modulo 3 equals the phase offset, so cells
//! touched by the same sub-pass are never adjacent.

use vstd::prelude::*;
use vstd::arithmetic::div_mod::lemma_fundamental_div_mod;
use vstd::arithmetic::div_mod::lemma_fundamental_div_mod_converse;

verus! {

/// Column offset of phase `p` within its 3x3 block.
pub open spec fn phase_ox(p: int) -> int {
    p % 3
}

/// Row offset of phase `p` within its 3x3 block.
pub open spec fn phase_oy(p: int) -> int {
    p / 3
}

/// Whether the cell at `(x, y)` is processed by phase `p`: its position
/// modulo 3 equals the phase offset.
pub open spec fn in_phase(x: int, y: int, p: int) -> bool {
    x % 3 == phase_ox(p) && y % 3 == phase_oy(p)
}

/// The phase that processes the cell at `(x, y)`.
pub open spec fn phase_of(x: int, y: int) -> int {
    (y % 3) * 3 + (x % 3)
}

/// All in-bounds coordinates of a `w` by `h` grid.
pub open spec fn grid_cells(w: int, h: int) -> Set<(int, int)> {
    Set::new(|c: (int, int)| 0 <= c.0 < w && 0 <= c.1 < h)
}

/// The absolute coordinates of a `w` by `h` grid processed by phase `p`.
pub open spec fn phase_cells(p: int, w: int, h: int) -> Set<(int, int)> {
    Set::new(|c: (int, int)| 0 <= c.0 < w && 0 <= c.1 < h && in_phase(c.0, c.1, p))
}

/// The union of the coordinate sets of the first `n` phases.
pub open spec fn phase_union(w: int, h: int, n: int) -> Set<(int, int)>
    decreases n,
{
    if n <= 0 {
        Set::<(int, int)>::empty()
    } else {
        phase_union(w, h, n - 1).union(phase_cells(n - 1, w, h))
    }
}

/// Every cell at non-negative coordinates belongs to phase `phase_of(x, y)`
/// and to no other of the nine phases.
pub proof fn lemma_phase_partition(x: int, y: int)
    requires
        0 <= x,
        0 <= y,
    ensures
        0 <= phase_of(x, y) < 9,
        in_phase(x, y, phase_of(x, y)),
        forall|p: int| 0 <= p < 9 && in_phase(x, y, p) ==> p == phase_of(x, y),
{
    lemma_fundamental_div_mod(x, 3);
    lemma_fundamental_div_mod(y, 3);
    lemma_fundamental_div_mod_converse((y % 3) * 3 + (x % 3), 3, y % 3, x % 3);
    assert forall|p: int| 0 <= p < 9 && in_phase(x, y, p) implies p == phase_of(x, y) by {
        lemma_fundamental_div_mod(p, 3);
    }
}

/// Phase disjointness: two distinct phases process disjoint coordinate sets.
pub proof fn lemma_phase_disjoint(p: int, q: int, w: int, h: int)
    requires
        0 <= p < 9,
        0 <= q < 9,
        p != q,
    ensures
        phase_cells(p, w, h).disjoint(phase_cells(q, w, h)),
{
    assert forall|c: (int, int)|
        phase_cells(p, w, h).contains(c) implies !phase_cells(q, w, h).contains(c) by {
        lemma_phase_partition(c.0, c.1);
    }
}

/// Membership in the union of the first `n` phase sets means membership in
/// one of those phases.
proof fn lemma_phase_union_member(w: int, h: int, n: int, c: (int, int))
    requires
        0 <= n,
    ensures
        phase_union(w, h, n).contains(c) <==> exists|p: int|
            0 <= p < n && phase_cells(p, w, h).contains(c),
    decreases n,
{
    if n > 0 {
        lemma_phase_union_member(w, h, n - 1, c);
        if phase_cells(n - 1, w, h).contains(c) {
            assert(0 <= n - 1 < n && phase_cells(n - 1, w, h).contains(c));
        }
    }
}

/// Phase coverage: the nine phase sets together are exactly the grid.
/// Together with `lemma_phase_disjoint` this says a full step processes
/// every cell of the grid exactly once.
pub proof fn lemma_phase_cover(w: int, h: int)
    ensures
        phase_union(w, h, 9) == grid_cells(w, h),
{
    assert forall|c: (int, int)| grid_cells(w, h).contains(c)
        implies phase_union(w, h, 9).contains(c) by {
        lemma_phase_partition(c.0, c.1);
        assert(phase_cells(phase_of(c.0, c.1), w, h).contains(c));
        lemma_phase_union_member(w, h, 9, c);
    }
    assert forall|c: (int, int)| phase_union(w, h, 9).contains(c)
        implies grid_cells(w, h).contains(c) by {
        lemma_phase_union_member(w, h, 9, c);
    }
    assert(phase_union(w, h, 9) =~= grid_cells(w, h));
}

/// How many stride-3 lanes cover an extent of `n` cells: the ceiling of
/// `n / 3`, the workgroup count of one sub-pass along one axis.
pub open spec fn lanes_spec(n: int) -> int {
    (n + 2) / 3
}

/// Ceiling division of the grid extent by the 3-cell phase stride.
pub fn lanes(n: usize) -> (r: usize)
    ensures
        r == lanes_spec(n as int),
        n <= 3 * r,
        3 * r <= n + 2,
{
    proof {
        lemma_fundamental_div_mod(n as int, 3);
        if n as int % 3 == 0 {
            lemma_fundamental_div_mod_converse(
                n as int + 2, 3, n as int / 3, 2,
            );
        } else if n as int % 3 == 1 {
            lemma_fundamental_div_mod_converse(
                n as int + 2, 3, n as int / 3 + 1, 0,
            );
        } else {
            lemma_fundamental_div_mod_converse(
                n as int + 2, 3, n as int / 3 + 1, 1,
            );
        }
    }
    if n % 3 == 0 {
        n / 3
    } else {
        n / 3 + 1
    }
}

} // verus!
