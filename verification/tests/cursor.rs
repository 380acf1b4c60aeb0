use casim::cell::Cell;
use casim::cell::CellId;
use casim::cursor::Cursor;
use casim::engine::Simulation;

fn chequered(w: usize, h: usize) -> Simulation {
    let mut s = Simulation::new(w, h);
    for y in 0..h {
        for x in 0..w {
            s.write_cell(x, y, Cell { id: CellId::Water, state: (x + 100 * y) as u32 });
        }
    }
    s
}

fn dist2(ax: usize, ay: usize, bx: usize, by: usize) -> usize {
    let dx = ax.abs_diff(bx);
    let dy = ay.abs_diff(by);
    dx * dx + dy * dy
}

#[test]
fn paint_disk_on_blank_grid() {
    // A 4 by 4 void grid, an enabled radius-1 sand brush at (1, 1): the
    // Euclidean disk around (1, 1) becomes sand, everything else stays void.
    let mut s = Simulation::new(4, 4);
    s.set_cursor(true, 1, [1, 1], CellId::Sand);
    for y in 0..4 {
        for x in 0..4 {
            let c = s.read(x, y);
            if dist2(x, y, 1, 1) <= 1 {
                assert_eq!(c.id, CellId::Sand);
            } else {
                assert_eq!(c.id, CellId::Void);
            }
            assert_eq!(c.state, 0);
        }
    }
    assert_eq!(s.counter(), 0);
}

#[test]
fn paint_changes_only_the_disk_and_only_identities() {
    let mut s = chequered(8, 8);
    s.set_cursor(true, 2, [4, 4], CellId::Rock);
    for y in 0..8 {
        for x in 0..8 {
            let c = s.read(x, y);
            // Scratch state is untouched everywhere.
            assert_eq!(c.state, (x + 100 * y) as u32);
            if dist2(x, y, 4, 4) <= 4 {
                assert_eq!(c.id, CellId::Rock);
            } else {
                assert_eq!(c.id, CellId::Water);
            }
        }
    }
}

#[test]
fn disabled_cursor_never_mutates() {
    let mut s = chequered(6, 6);
    s.set_cursor(false, 50, [3, 3], CellId::Sand);
    s.set_cursor(false, 1, [0, 0], CellId::Void);
    for y in 0..6 {
        for x in 0..6 {
            let c = s.read(x, y);
            assert_eq!(c.id, CellId::Water);
            assert_eq!(c.state, (x + 100 * y) as u32);
        }
    }
}

#[test]
fn cursor_off_the_edge_paints_the_intersection() {
    let mut s = Simulation::new(3, 3);
    s.set_cursor(true, 2, [0, 0], CellId::Water);
    for y in 0..3 {
        for x in 0..3 {
            let c = s.read(x, y);
            if dist2(x, y, 0, 0) <= 4 {
                assert_eq!(c.id, CellId::Water);
            } else {
                assert_eq!(c.id, CellId::Void);
            }
        }
    }
}

#[test]
fn radius_is_clamped_into_range() {
    let low = Cursor::new(true, 0, [5, 5], CellId::Sand);
    assert_eq!(low.radius, 1);
    let high = Cursor::new(true, 999, [5, 5], CellId::Sand);
    assert_eq!(high.radius, 20);
    let kept = Cursor::new(true, 7, [5, 5], CellId::Sand);
    assert_eq!(kept.radius, 7);
}

#[test]
fn oversized_radius_paints_as_twenty() {
    // A radius-50 request acts as radius 20: on a narrow strip, a cell 21
    // columns away stays unpainted while one 20 away is painted.
    let mut s = Simulation::new(25, 1);
    s.set_cursor(true, 50, [0, 0], CellId::Rock);
    assert_eq!(s.read(20, 0).id, CellId::Rock);
    assert_eq!(s.read(21, 0).id, CellId::Void);
}

#[test]
fn default_cursor_is_idle() {
    let c = Cursor::default();
    assert!(!c.enabled);
    assert_eq!(c.radius, 1);
    assert_eq!(c.x, 0);
    assert_eq!(c.y, 0);
    assert_eq!(c.paint_id, CellId::Void);
}

#[test]
fn paint_then_step_keeps_the_edit() {
    let mut s = Simulation::new(3, 3);
    s.set_cursor(true, 1, [1, 0], CellId::Rock);
    s.step(&casim::kernel::FallKernel);
    assert_eq!(s.read(1, 0).id, CellId::Rock);
}
