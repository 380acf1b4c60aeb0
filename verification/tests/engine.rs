use casim::cell::Cell;
use casim::cell::CellId;
use casim::engine::Simulation;
use casim::kernel::FallKernel;
use casim::kernel::SeedKernel;

fn sand(state: u32) -> Cell {
    Cell { id: CellId::Sand, state }
}

#[test]
fn counter_starts_at_zero() {
    let s = Simulation::new(4, 4);
    assert_eq!(s.counter(), 0);
}

#[test]
fn counter_advances_by_nine_per_step() {
    let mut s = Simulation::new(4, 4);
    s.step(&FallKernel);
    assert_eq!(s.counter(), 9);
    s.step(&FallKernel);
    assert_eq!(s.counter(), 18);
}

#[test]
fn counter_advance_ignores_grid_contents() {
    let mut a = Simulation::new(5, 3);
    let mut b = Simulation::new(5, 3);
    b.write_cell(2, 2, sand(11));
    b.write_cell(0, 0, Cell { id: CellId::Rock, state: 3 });
    a.step(&FallKernel);
    b.step(&FallKernel);
    assert_eq!(a.counter(), 9);
    assert_eq!(b.counter(), 9);
}

#[test]
fn counter_wraps_silently() {
    let mut s = Simulation::new(2, 2);
    s.set_counter(u32::MAX - 4);
    s.step(&FallKernel);
    assert_eq!(s.counter(), 4);
}

#[test]
fn step_is_deterministic() {
    let mut a = Simulation::new(6, 6);
    let mut b = Simulation::new(6, 6);
    for (x, y) in [(1usize, 4usize), (2, 4), (3, 1), (5, 5)] {
        a.write_cell(x, y, sand((x + 10 * y) as u32));
        b.write_cell(x, y, sand((x + 10 * y) as u32));
    }
    a.set_counter(77);
    b.set_counter(77);
    a.step(&SeedKernel);
    b.step(&SeedKernel);
    assert_eq!(a.counter(), b.counter());
    for y in 0..6 {
        for x in 0..6 {
            assert_eq!(a.read(x, y), b.read(x, y));
        }
    }
}

#[test]
fn each_cell_gets_its_own_phase_seed() {
    // The seed kernel records the sub-pass seed in each cell it visits.
    // After one step every cell must hold the seed of exactly its own
    // phase: counter + (y % 3) * 3 + (x % 3). That each cell holds its own
    // phase's seed, and not a later pass's, shows the nine sub-passes
    // covered the grid once each in order.
    let mut s = Simulation::new(7, 5);
    s.set_counter(100);
    s.step(&SeedKernel);
    for y in 0..5 {
        for x in 0..7 {
            let expected = 100 + ((y as u32) % 3) * 3 + (x as u32) % 3;
            assert_eq!(s.read(x, y).state, expected);
        }
    }
}

#[test]
fn phase_seeds_wrap_with_the_counter() {
    let mut s = Simulation::new(4, 4);
    s.set_counter(u32::MAX);
    s.step(&SeedKernel);
    // Phase 0 gets u32::MAX itself; every later phase wraps around.
    assert_eq!(s.read(0, 0).state, u32::MAX);
    assert_eq!(s.read(1, 0).state, 0);
    assert_eq!(s.read(1, 1).state, 3);
}

#[test]
fn seed_kernel_keeps_identities() {
    let mut s = Simulation::new(3, 3);
    s.write_cell(1, 2, Cell { id: CellId::Water, state: 9 });
    s.step(&SeedKernel);
    assert_eq!(s.read(1, 2).id, CellId::Water);
    assert_eq!(s.read(0, 0).id, CellId::Void);
}

#[test]
fn sand_falls_one_row_per_step() {
    let mut s = Simulation::new(4, 4);
    s.write_cell(2, 2, sand(7));
    s.step(&FallKernel);
    for y in 0..4 {
        for x in 0..4 {
            let c = s.read(x, y);
            if (x, y) == (2, 1) {
                assert_eq!(c, sand(7));
            } else {
                assert_eq!(c.id, CellId::Void);
            }
        }
    }
    s.step(&FallKernel);
    assert_eq!(s.read(2, 0), sand(7));
    assert_eq!(s.read(2, 1).id, CellId::Void);
}

#[test]
fn sand_rests_on_the_bottom_row() {
    let mut s = Simulation::new(4, 4);
    s.write_cell(1, 0, sand(5));
    s.step(&FallKernel);
    assert_eq!(s.read(1, 0), sand(5));
    for y in 1..4 {
        assert_eq!(s.read(1, y).id, CellId::Void);
    }
}

#[test]
fn sand_rests_on_rock() {
    let mut s = Simulation::new(3, 4);
    s.write_cell(1, 1, Cell { id: CellId::Rock, state: 0 });
    s.write_cell(1, 2, sand(1));
    s.step(&FallKernel);
    assert_eq!(s.read(1, 2), sand(1));
    assert_eq!(s.read(1, 1).id, CellId::Rock);
}

#[test]
fn reads_match_the_grid_view() {
    let mut s = Simulation::new(3, 2);
    s.write_cell(2, 1, sand(8));
    let g = s.current_grid_view();
    assert_eq!(g.width(), 3);
    assert_eq!(g.height(), 2);
    assert_eq!(g.get(2, 1), sand(8));
    assert_eq!(g.get(0, 0).id, CellId::Void);
}
