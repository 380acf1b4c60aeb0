use casim::cell::Cell;
use casim::cell::CellId;
use casim::grid::Grid;
use casim::mode::UpdateMode;
use casim::phase::lanes;

#[test]
fn cell_identity_codes() {
    assert_eq!(CellId::Void.code(), 0);
    assert_eq!(CellId::Rock.code(), 1);
    assert_eq!(CellId::Sand.code(), 2);
    assert_eq!(CellId::Water.code(), 3);
}

#[test]
fn cell_identity_decoding() {
    assert_eq!(CellId::from_code(0), Some(CellId::Void));
    assert_eq!(CellId::from_code(1), Some(CellId::Rock));
    assert_eq!(CellId::from_code(2), Some(CellId::Sand));
    assert_eq!(CellId::from_code(3), Some(CellId::Water));
    assert_eq!(CellId::from_code(4), None);
    assert_eq!(CellId::from_code(u32::MAX), None);
}

#[test]
fn default_identity_is_void() {
    assert_eq!(CellId::default(), CellId::Void);
}

#[test]
fn blank_cell_is_zeroed() {
    let c = Cell::blank();
    assert_eq!(c.id, CellId::Void);
    assert_eq!(c.state, 0);
}

#[test]
fn new_grid_is_blank() {
    let g = Grid::new(5, 3);
    assert_eq!(g.width(), 5);
    assert_eq!(g.height(), 3);
    for y in 0..3 {
        for x in 0..5 {
            assert_eq!(g.get(x, y), Cell::blank());
        }
    }
}

#[test]
fn grid_set_then_get() {
    let mut g = Grid::new(4, 4);
    let c = Cell { id: CellId::Sand, state: 42 };
    g.set(2, 3, c);
    assert_eq!(g.get(2, 3), c);
    assert_eq!(g.get(3, 2), Cell::blank());
}

#[test]
fn grid_duplicate_copies_cells() {
    let mut g = Grid::new(3, 3);
    g.set(1, 1, Cell { id: CellId::Water, state: 6 });
    let d = g.duplicate();
    assert_eq!(d.width(), 3);
    assert_eq!(d.height(), 3);
    assert_eq!(d.get(1, 1), Cell { id: CellId::Water, state: 6 });
    g.set(1, 1, Cell::blank());
    assert_eq!(d.get(1, 1), Cell { id: CellId::Water, state: 6 });
}

#[test]
fn lane_counts_cover_the_extent() {
    // ceil(n / 3) stride-3 lanes: what the 128-cell convention dispatches.
    assert_eq!(lanes(0), 0);
    assert_eq!(lanes(1), 1);
    assert_eq!(lanes(3), 1);
    assert_eq!(lanes(4), 2);
    assert_eq!(lanes(128), 43);
}

#[test]
fn update_mode_constructors() {
    assert_eq!(UpdateMode::new_tick(), UpdateMode::Tick);
    assert_eq!(UpdateMode::new_step(), UpdateMode::Step { requested: false });
}

#[test]
fn update_mode_toggles() {
    let m = UpdateMode::new_tick().toggle();
    assert_eq!(m, UpdateMode::Step { requested: false });
    assert_eq!(m.toggle(), UpdateMode::Tick);
    // Toggling away discards a pending request.
    let pending = UpdateMode::new_step().request_step();
    assert_eq!(pending.toggle(), UpdateMode::Tick);
}

#[test]
fn tick_mode_steps_when_the_timer_is_due() {
    let m = UpdateMode::new_tick();
    assert_eq!(m.advance(false), (UpdateMode::Tick, false));
    assert_eq!(m.advance(true), (UpdateMode::Tick, true));
}

#[test]
fn step_mode_consumes_one_request() {
    let m = UpdateMode::new_step();
    assert_eq!(m.advance(true), (UpdateMode::Step { requested: false }, false));
    let m = m.request_step();
    assert_eq!(m, UpdateMode::Step { requested: true });
    let (m, run) = m.advance(false);
    assert!(run);
    assert_eq!(m.advance(false), (UpdateMode::Step { requested: false }, false));
}
