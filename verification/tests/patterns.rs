use game_of_life::{Cell, Glider, Universe};

fn dead_universe(w: u32, h: u32) -> Universe {
    let seed = vec![false; (w * h) as usize];
    Universe::new(w, h, &seed)
}

fn alive_count(u: &Universe) -> usize {
    u.get_cells().iter().filter(|c| **c == Cell::Alive).count()
}

fn cell_at(u: &Universe, row: u32, col: u32) -> Cell {
    u.get_cells()[(row * u.width() + col) as usize]
}

#[test]
fn glider_northwest_toggles_its_five_offsets() {
    let mut u = dead_universe(10, 10);
    u.create_glider(5, 5, Glider::NorthWest);
    assert_eq!(alive_count(&u), 5);
    // Offsets (dr, dc) of {(9,9), (0,9), (1,9), (9,0), (0,1)} wrapped
    // around the anchor (5, 5).
    assert_eq!(cell_at(&u, 4, 4), Cell::Alive);
    assert_eq!(cell_at(&u, 5, 4), Cell::Alive);
    assert_eq!(cell_at(&u, 6, 4), Cell::Alive);
    assert_eq!(cell_at(&u, 4, 5), Cell::Alive);
    assert_eq!(cell_at(&u, 5, 6), Cell::Alive);
}

#[test]
fn glider_orientations_each_toggle_five_cells() {
    for g in [
        Glider::NorthWest,
        Glider::SouthWest,
        Glider::NorthEast,
        Glider::SouthEast,
    ] {
        let mut u = dead_universe(10, 10);
        u.create_glider(4, 4, g);
        assert_eq!(alive_count(&u), 5);
    }
}

#[test]
fn glider_placed_twice_restores_the_grid() {
    let seed: Vec<bool> = (0..100).map(|i| i % 4 == 0).collect();
    let mut u = Universe::new(10, 10, &seed);
    let before: Vec<Cell> = u.get_cells().to_vec();
    u.create_glider(3, 7, Glider::SouthEast);
    assert_ne!(u.get_cells(), &before[..]);
    u.create_glider(3, 7, Glider::SouthEast);
    assert_eq!(u.get_cells(), &before[..]);
}

#[test]
fn glider_over_live_cells_can_turn_them_off() {
    let mut u = dead_universe(10, 10);
    // (4, 4) is one of the NorthWest glider's target cells for anchor (5, 5).
    u.toggle_cell(4, 4);
    u.create_glider(5, 5, Glider::NorthWest);
    assert_eq!(cell_at(&u, 4, 4), Cell::Dead);
    assert_eq!(alive_count(&u), 4);
}

#[test]
fn pulsar_toggles_forty_eight_cells() {
    let mut u = dead_universe(13, 13);
    u.create_pulsar(0, 0);
    assert_eq!(alive_count(&u), 48);
}

#[test]
fn pulsar_placed_twice_restores_the_grid() {
    let seed: Vec<bool> = (0..169).map(|i| i % 5 == 1).collect();
    let mut u = Universe::new(13, 13, &seed);
    let before: Vec<Cell> = u.get_cells().to_vec();
    u.create_pulsar(2, 3);
    assert_ne!(u.get_cells(), &before[..]);
    u.create_pulsar(2, 3);
    assert_eq!(u.get_cells(), &before[..]);
}

#[test]
fn pulsar_anchor_wraps_around_the_torus() {
    let mut a = dead_universe(13, 13);
    a.create_pulsar(13 - 1, 13 - 2);
    // Anchoring one row up and two cols left shifts every toggled cell the
    // same way, wrapped; the pattern size is unchanged.
    assert_eq!(alive_count(&a), 48);
}
