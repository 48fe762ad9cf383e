use wasm_game_of_life::{Cell, Universe};

fn seed(i: usize) -> Cell {
    if i % 2 == 0 || i % 7 == 0 {
        Cell::Alive
    } else {
        Cell::Dead
    }
}

fn assert_seeded(universe: &Universe, width: u32, height: u32) {
    assert_eq!(universe.width(), width);
    assert_eq!(universe.height(), height);
    let cells = universe.get_cells();
    assert_eq!(cells.len(), (width as usize) * (height as usize));
    for (i, cell) in cells.iter().enumerate() {
        assert_eq!(*cell, seed(i), "cell {}", i);
    }
}

#[test]
fn new_universe_is_64_by_64_and_seeded() {
    let universe = Universe::new();
    assert_seeded(&universe, 64, 64);
}

#[test]
fn seed_pattern_starts_with_known_cells() {
    let mut universe = Universe::new();
    universe.set_width(4);
    universe.set_height(4);
    // Indices 0, 2, 4, ... are even; 7 is the only odd multiple of 7 below 16.
    let expected = vec![
        Cell::Alive, Cell::Dead, Cell::Alive, Cell::Dead,
        Cell::Alive, Cell::Dead, Cell::Alive, Cell::Alive,
        Cell::Alive, Cell::Dead, Cell::Alive, Cell::Dead,
        Cell::Alive, Cell::Dead, Cell::Alive, Cell::Dead,
    ];
    assert_eq!(universe.get_cells(), expected);
}

#[test]
fn reset_restores_the_seed_pattern_for_several_extents() {
    for &(width, height) in &[(1u32, 1u32), (3, 5), (5, 3), (7, 7), (16, 9), (21, 2)] {
        let mut universe = Universe::new();
        universe.set_width(width);
        universe.set_height(height);
        universe.set_all_alive();
        universe.reset();
        assert_seeded(&universe, width, height);
        universe.set_all_dead();
        universe.reset();
        assert_seeded(&universe, width, height);
    }
}

#[test]
fn reset_discards_toggles_and_generations() {
    let mut universe = Universe::new();
    universe.toggle_cell(3, 4);
    universe.tick();
    universe.tick();
    universe.reset();
    assert_seeded(&universe, 64, 64);
}

#[test]
fn set_width_reseeds_for_the_new_extent() {
    let mut universe = Universe::new();
    universe.set_all_dead();
    universe.set_cells(&[(1, 1), (1, 2), (2, 1), (2, 2)]);
    universe.set_width(10);
    assert_seeded(&universe, 10, 64);
}

#[test]
fn set_height_reseeds_for_the_new_extent() {
    let mut universe = Universe::new();
    universe.set_all_alive();
    universe.tick();
    universe.set_height(5);
    assert_seeded(&universe, 64, 5);
}

#[test]
fn resize_does_not_carry_the_old_pattern_over() {
    let mut universe = Universe::new();
    universe.set_width(8);
    universe.set_height(8);
    universe.set_all_dead();
    universe.set_cells(&[(0, 1), (0, 3)]);
    universe.set_width(9);
    // In a copy of the old rows the cell at (1, 0) would be dead; index 9 is
    // odd and no multiple of 7, index 14 is a multiple of both.
    let cells = universe.get_cells();
    assert_eq!(cells[1], Cell::Dead);
    assert_eq!(cells[3], Cell::Dead);
    assert_eq!(cells[9], Cell::Dead);
    assert_eq!(cells[14], Cell::Alive);
    assert_seeded(&universe, 9, 8);
}

#[test]
fn resize_to_zero_width_gives_an_empty_grid() {
    let mut universe = Universe::new();
    universe.set_width(0);
    assert_eq!(universe.width(), 0);
    assert_eq!(universe.height(), 64);
    assert!(universe.get_cells().is_empty());
    assert!(universe.cells().is_empty());
    assert_eq!(universe.render(), "");
    universe.tick();
    assert!(universe.get_cells().is_empty());
    universe.reset();
    assert!(universe.get_cells().is_empty());
    universe.set_all_alive();
    assert!(universe.get_cells().is_empty());
}

#[test]
fn resize_to_zero_height_gives_an_empty_grid() {
    let mut universe = Universe::new();
    universe.set_height(0);
    assert_eq!(universe.width(), 64);
    assert_eq!(universe.height(), 0);
    assert!(universe.get_cells().is_empty());
    assert!(universe.cells().is_empty());
    assert_eq!(universe.render(), "");
    universe.tick();
    assert!(universe.get_cells().is_empty());
}

#[test]
fn an_empty_grid_can_grow_again() {
    let mut universe = Universe::new();
    universe.set_width(0);
    universe.set_height(3);
    universe.set_width(2);
    assert_seeded(&universe, 2, 3);
}

#[test]
fn fills_set_every_cell() {
    let mut universe = Universe::new();
    universe.set_width(5);
    universe.set_height(4);
    universe.set_all_alive();
    assert_eq!(universe.get_cells(), vec![Cell::Alive; 20]);
    universe.set_all_dead();
    assert_eq!(universe.get_cells(), vec![Cell::Dead; 20]);
    assert_eq!(universe.width(), 5);
    assert_eq!(universe.height(), 4);
}
