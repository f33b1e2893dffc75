use game_of_life::{Cell, Universe};

fn dead_universe(w: u32, h: u32) -> Universe {
    let seed = vec![false; (w * h) as usize];
    Universe::new(w, h, &seed)
}

fn alive_count(u: &Universe) -> usize {
    u.get_cells().iter().filter(|c| **c == Cell::Alive).count()
}

fn cell_at(u: &Universe, row: u32, col: u32) -> Cell {
    u.get_cells()[(row * u.width() + col) as usize]
}

#[test]
fn new_maps_seed_to_cells() {
    let seed = vec![true, false, false, true];
    let u = Universe::new(2, 2, &seed);
    assert_eq!(u.width(), 2);
    assert_eq!(u.height(), 2);
    assert_eq!(
        u.get_cells(),
        &[Cell::Alive, Cell::Dead, Cell::Dead, Cell::Alive]
    );
}

#[test]
fn new_empty_width_is_legal() {
    let u = dead_universe(0, 3);
    assert_eq!(u.width(), 0);
    assert_eq!(u.height(), 3);
    assert_eq!(u.get_cells().len(), 0);
}

#[test]
fn tick_on_empty_grid_is_a_no_op() {
    let mut u = dead_universe(0, 3);
    u.tick();
    assert_eq!(u.get_cells().len(), 0);
    let mut v = dead_universe(3, 0);
    v.tick();
    assert_eq!(v.get_cells().len(), 0);
}

#[test]
fn determinism_same_seed_same_generations() {
    let seed: Vec<bool> = (0..36).map(|i| i % 3 == 0 || i % 7 == 0).collect();
    let mut a = Universe::new(6, 6, &seed);
    let mut b = Universe::new(6, 6, &seed);
    assert_eq!(a.get_cells(), b.get_cells());
    for _ in 0..4 {
        a.tick();
        b.tick();
        assert_eq!(a.get_cells(), b.get_cells());
    }
}

#[test]
fn neighbor_counts_center_only_three_by_three() {
    let mut u = dead_universe(3, 3);
    u.toggle_cell(1, 1);
    // The center never counts itself.
    assert_eq!(u.live_neighbor_count(1, 1), 0);
    // On a 3x3 torus every other cell is adjacent to the center.
    for row in 0..3 {
        for col in 0..3 {
            if (row, col) != (1, 1) {
                assert_eq!(u.live_neighbor_count(row, col), 1);
            }
        }
    }
}

#[test]
fn wraparound_far_corner_is_a_neighbor_of_origin() {
    let mut u = dead_universe(4, 4);
    u.toggle_cell(3, 3);
    assert_eq!(u.live_neighbor_count(0, 0), 1);
    assert_eq!(u.live_neighbor_count(0, 3), 1);
    assert_eq!(u.live_neighbor_count(3, 0), 1);
    assert_eq!(u.live_neighbor_count(2, 2), 1);
    // The live cell itself has no live neighbors.
    assert_eq!(u.live_neighbor_count(3, 3), 0);
    // Cells not adjacent to (3,3), even after wrapping, count zero.
    assert_eq!(u.live_neighbor_count(1, 1), 0);
}

#[test]
fn one_by_one_grid_wraps_onto_itself() {
    let seed = vec![true];
    let u = Universe::new(1, 1, &seed);
    // All 8 neighbor offsets wrap back to the only cell.
    assert_eq!(u.live_neighbor_count(0, 0), 8);
}

#[test]
fn blinker_oscillates_with_period_two() {
    let mut u = dead_universe(5, 5);
    u.set_cells(&[(2, 1), (2, 2), (2, 3)]);
    let horizontal: Vec<Cell> = u.get_cells().to_vec();
    u.tick();
    // The horizontal line flips to vertical...
    assert_eq!(alive_count(&u), 3);
    assert_eq!(cell_at(&u, 1, 2), Cell::Alive);
    assert_eq!(cell_at(&u, 2, 2), Cell::Alive);
    assert_eq!(cell_at(&u, 3, 2), Cell::Alive);
    // ...and back to horizontal on the next tick.
    u.tick();
    assert_eq!(u.get_cells(), &horizontal[..]);
}

#[test]
fn block_is_stable_under_many_ticks() {
    let mut u = dead_universe(4, 4);
    u.set_cells(&[(1, 1), (1, 2), (2, 1), (2, 2)]);
    let before: Vec<Cell> = u.get_cells().to_vec();
    // Each block cell has exactly 3 live neighbors.
    assert_eq!(u.live_neighbor_count(1, 1), 3);
    assert_eq!(u.live_neighbor_count(2, 2), 3);
    for _ in 0..6 {
        u.tick();
        assert_eq!(u.get_cells(), &before[..]);
    }
}

#[test]
fn underpopulation_kills_a_lone_cell() {
    let mut u = dead_universe(4, 4);
    u.toggle_cell(1, 1);
    u.tick();
    assert_eq!(alive_count(&u), 0);
}

#[test]
fn birth_on_exactly_three_neighbors() {
    let mut u = dead_universe(5, 5);
    u.set_cells(&[(1, 1), (1, 3), (3, 2)]);
    u.tick();
    // (2, 2) touches all three live cells and is born.
    assert_eq!(cell_at(&u, 2, 2), Cell::Alive);
}

#[test]
fn toggle_cell_flips_exactly_one_cell() {
    let mut u = dead_universe(3, 3);
    u.toggle_cell(1, 2);
    assert_eq!(cell_at(&u, 1, 2), Cell::Alive);
    assert_eq!(alive_count(&u), 1);
    u.toggle_cell(1, 2);
    assert_eq!(alive_count(&u), 0);
}

#[test]
fn set_cells_sets_listed_cells_alive() {
    let mut u = dead_universe(3, 3);
    u.set_cells(&[(0, 0), (2, 1)]);
    assert_eq!(cell_at(&u, 0, 0), Cell::Alive);
    assert_eq!(cell_at(&u, 2, 1), Cell::Alive);
    assert_eq!(alive_count(&u), 2);
    // Setting an already-live cell leaves it alive.
    u.set_cells(&[(0, 0)]);
    assert_eq!(alive_count(&u), 2);
}

#[test]
fn set_width_resets_every_cell_to_dead() {
    let seed = vec![true; 16];
    let mut u = Universe::new(4, 4, &seed);
    u.set_width(6);
    assert_eq!(u.width(), 6);
    assert_eq!(u.height(), 4);
    assert_eq!(u.get_cells().len(), 24);
    assert!(u.get_cells().iter().all(|c| *c == Cell::Dead));
}

#[test]
fn set_height_resets_every_cell_to_dead() {
    let seed = vec![true; 16];
    let mut u = Universe::new(4, 4, &seed);
    u.set_height(2);
    assert_eq!(u.width(), 4);
    assert_eq!(u.height(), 2);
    assert_eq!(u.get_cells().len(), 8);
    assert!(u.get_cells().iter().all(|c| *c == Cell::Dead));
}

#[test]
fn cells_view_matches_get_cells() {
    let seed = vec![true, false, true, false, true, false];
    let u = Universe::new(3, 2, &seed);
    assert_eq!(u.cells().as_slice(), u.get_cells());
    assert_eq!(u.cells().len(), 6);
}

#[test]
fn render_draws_one_glyph_per_cell_and_one_line_per_row() {
    let seed = vec![true, false, false, false];
    let u = Universe::new(2, 2, &seed);
    assert_eq!(u.render(), "◼◻\n◻◻\n");
}

#[test]
fn render_empty_grids() {
    let u = dead_universe(0, 3);
    assert_eq!(u.render(), "\n\n\n");
    let v = dead_universe(3, 0);
    assert_eq!(v.render(), "");
}
