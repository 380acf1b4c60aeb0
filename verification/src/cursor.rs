//! The cursor edit pass model.
//!
//! A cursor is a transient paint instruction, rebuilt from input state every
//! poll cycle: a circular brush that, while enabled, overwrites the identity
//! of every cell within its radius of its position. The brush metric is
//! Euclidean distance: a cell is painted when the squared distance of its
//! coordinate from the cursor position is at most the squared radius.

use vstd::prelude::*;
use crate::cell::Cell;
use crate::cell::CellId;
use crate::grid::cell_at;

verus! {

/// Whether `(x, y)` lies within the Euclidean disk of radius `r` around
/// `(cx, cy)`.
pub open spec fn in_disk(cx: int, cy: int, r: int, x: int, y: int) -> bool {
    (x - cx) * (x - cx) + (y - cy) * (y - cy) <= r * r
}

/// The radius a paint request is narrowed to: out-of-range radii are
/// clamped into the accepted brush range `[1, 20]` rather than rejected.
pub open spec fn clamp_radius(r: u32) -> u32 {
    if r < 1 {
        1u32
    } else if r > 20 {
        20u32
    } else {
        r
    }
}

/// A transient paint instruction. Positions are grid coordinates; a cursor
/// placed near or beyond the grid edge simply paints the part of its disk
/// that intersects the grid.
#[derive(Clone, Copy, Debug, PartialEq, Eq, Structural)]
pub struct Cursor {
    pub enabled: bool,
    pub radius: u32,
    pub x: u32,
    pub y: u32,
    pub paint_id: CellId,
}

/// The cursor a paint request builds: the radius clamped, all else as
/// given.
pub open spec fn spec_cursor(
    enabled: bool,
    radius: u32,
    position: [u32; 2],
    paint_id: CellId,
) -> Cursor {
    Cursor {
        enabled,
        radius: clamp_radius(radius),
        x: position[0],
        y: position[1],
        paint_id,
    }
}

impl Cursor {
    /// The radius lies in the accepted brush range.
    pub open spec fn wf(self) -> bool {
        1 <= self.radius <= 20
    }

    /// Builds a cursor from raw input state, clamping the radius.
    pub fn new(enabled: bool, radius: u32, position: [u32; 2], paint_id: CellId) -> (c: Cursor)
        ensures
            c.wf(),
            c == spec_cursor(enabled, radius, position, paint_id),
    {
        let r = if radius < 1 {
            1
        } else if radius > 20 {
            20
        } else {
            radius
        };
        Cursor { enabled, radius: r, x: position[0], y: position[1], paint_id }
    }
}

impl Default for Cursor {
    /// The idle cursor: disabled, radius 1, at the origin, painting void.
    fn default() -> (c: Self)
        ensures
            c == (Cursor {
                enabled: false,
                radius: 1u32,
                x: 0u32,
                y: 0u32,
                paint_id: CellId::Void,
            }),
    {
        Cursor { enabled: false, radius: 1, x: 0, y: 0, paint_id: CellId::Void }
    }
}

/// What one cursor pass over a `w` by `h` grid does: while the cursor is
/// enabled, every in-bounds cell within the disk has its identity replaced
/// by the paint identity and keeps its scratch state; every other cell —
/// and, with the cursor disabled, every cell — is bitwise unchanged.
pub open spec fn paint_applied(g0: Seq<Cell>, w: int, h: int, c: Cursor, g1: Seq<Cell>) -> bool {
    &&& g1.len() == g0.len()
    &&& forall|x: int, y: int|
        0 <= x < w && 0 <= y < h && c.enabled && in_disk(
            c.x as int,
            c.y as int,
            c.radius as int,
            x,
            y,
        ) ==> #[trigger] cell_at(g1, w, x, y) == (Cell {
            id: c.paint_id,
            state: cell_at(g0, w, x, y).state,
        })
    &&& forall|x: int, y: int|
        0 <= x < w && 0 <= y < h && !(c.enabled && in_disk(
            c.x as int,
            c.y as int,
            c.radius as int,
            x,
            y,
        )) ==> #[trigger] cell_at(g1, w, x, y) == cell_at(g0, w, x, y)
}

/// Evaluates the brush metric for one cell.
pub fn disk_hit(cx: u32, cy: u32, r: u32, x: usize, y: usize) -> (b: bool)
    requires
        r <= 20,
    ensures
        b == in_disk(cx as int, cy as int, r as int, x as int, y as int),
{
    let rs = r as usize;
    let cxs = cx as usize;
    let cys = cy as usize;
    let dx = if x >= cxs {
        x - cxs
    } else {
        cxs - x
    };
    let dy = if y >= cys {
        y - cys
    } else {
        cys - y
    };
    if dx <= rs && dy <= rs {
        proof {
            assert(dx * dx <= 400 && dy * dy <= 400 && rs * rs <= 400) by (nonlinear_arith)
                requires
                    0 <= dx <= 20,
                    0 <= dy <= 20,
                    0 <= rs <= 20,
            ;
        }
        let b = dx * dx + dy * dy <= rs * rs;
        proof {
            assert(b == in_disk(cx as int, cy as int, r as int, x as int, y as int))
                by (nonlinear_arith)
                requires
                    dx == x - cx || dx == cx - x,
                    dy == y - cy || dy == cy - y,
                    0 <= dx,
                    0 <= dy,
                    b == (dx * dx + dy * dy <= rs * rs),
                    rs == r,
            ;
        }
        b
    } else {
        proof {
            assert(!in_disk(cx as int, cy as int, r as int, x as int, y as int))
                by (nonlinear_arith)
                requires
                    dx == x - cx || dx == cx - x,
                    dy == y - cy || dy == cy - y,
                    0 <= dx,
                    0 <= dy,
                    dx > rs || dy > rs,
                    rs == r,
            ;
        }
        false
    }
}

} // verus!
