use wasm_game_of_life::{Cell, Universe};

fn grid(width: u32, height: u32, alive: &[(u32, u32)]) -> Universe {
    let mut universe = Universe::new();
    universe.set_width(width);
    universe.set_height(height);
    universe.set_all_dead();
    universe.set_cells(alive);
    universe
}

#[test]
fn cell_toggle_flips_the_state() {
    let mut cell = Cell::Dead;
    cell.toggle();
    assert_eq!(cell, Cell::Alive);
    cell.toggle();
    assert_eq!(cell, Cell::Dead);
}

#[test]
fn cell_bytes_are_zero_and_one() {
    assert_eq!(Cell::Dead.to_byte(), 0);
    assert_eq!(Cell::Alive.to_byte(), 1);
}

#[test]
fn index_is_row_times_width_plus_column() {
    for &(width, height) in &[(1u32, 1u32), (4, 4), (3, 7), (7, 3), (64, 64), (10, 1), (1, 10)] {
        let mut universe = Universe::new();
        universe.set_width(width);
        universe.set_height(height);
        for row in 0..height {
            for col in 0..width {
                assert_eq!(
                    universe.get_index(row, col),
                    (row * width + col) as usize,
                    "({}, {}) of {} by {}",
                    row,
                    col,
                    width,
                    height
                );
            }
        }
    }
}

#[test]
fn index_of_known_positions() {
    let mut universe = Universe::new();
    assert_eq!(universe.get_index(0, 0), 0);
    assert_eq!(universe.get_index(1, 0), 64);
    assert_eq!(universe.get_index(63, 63), 4095);
    universe.set_width(5);
    universe.set_height(9);
    assert_eq!(universe.get_index(2, 3), 13);
    assert_eq!(universe.get_index(8, 4), 44);
}

#[test]
fn toggle_cell_flips_one_cell_only() {
    let mut universe = grid(4, 3, &[(1, 1)]);
    universe.toggle_cell(2, 3);
    let mut expected = vec![Cell::Dead; 12];
    expected[5] = Cell::Alive;
    expected[11] = Cell::Alive;
    assert_eq!(universe.get_cells(), expected);
    universe.toggle_cell(1, 1);
    expected[5] = Cell::Dead;
    assert_eq!(universe.get_cells(), expected);
}

#[test]
fn toggling_twice_restores_every_cell() {
    let mut universe = Universe::new();
    universe.set_width(7);
    universe.set_height(5);
    let before = universe.get_cells();
    for row in 0..5 {
        for col in 0..7 {
            universe.toggle_cell(row, col);
            assert_ne!(universe.get_cells(), before);
            universe.toggle_cell(row, col);
            assert_eq!(universe.get_cells(), before);
        }
    }
}

#[test]
fn set_cells_makes_the_listed_cells_alive() {
    let universe = grid(4, 4, &[(0, 0), (1, 2), (3, 3), (1, 2)]);
    let mut expected = vec![Cell::Dead; 16];
    expected[0] = Cell::Alive;
    expected[6] = Cell::Alive;
    expected[15] = Cell::Alive;
    assert_eq!(universe.get_cells(), expected);
}

#[test]
fn set_cells_keeps_live_cells_alive() {
    let mut universe = grid(3, 3, &[(0, 0), (2, 2)]);
    universe.set_cells(&[(0, 0), (1, 1)]);
    let mut expected = vec![Cell::Dead; 9];
    expected[0] = Cell::Alive;
    expected[4] = Cell::Alive;
    expected[8] = Cell::Alive;
    assert_eq!(universe.get_cells(), expected);
}

#[test]
fn set_cells_with_no_position_changes_nothing() {
    let mut universe = grid(3, 2, &[(1, 1)]);
    let before = universe.get_cells();
    universe.set_cells(&[]);
    assert_eq!(universe.get_cells(), before);
}

#[test]
fn buffer_holds_one_byte_per_cell_in_row_major_order() {
    let universe = grid(3, 2, &[(0, 1), (1, 2)]);
    assert_eq!(universe.cells(), &[0u8, 1, 0, 0, 0, 1][..]);
}

#[test]
fn buffer_matches_the_cells() {
    let mut universe = Universe::new();
    universe.tick();
    let cells = universe.get_cells();
    let bytes = universe.cells();
    assert_eq!(bytes.len(), 64 * 64);
    for (byte, cell) in bytes.iter().zip(cells.iter()) {
        assert_eq!(*byte, cell.to_byte());
        assert!(*byte <= 1);
    }
}

#[test]
fn render_draws_one_line_per_row() {
    let universe = grid(3, 2, &[(0, 1), (1, 0), (1, 2)]);
    assert_eq!(universe.render(), "\u{25a1}\u{25a0}\u{25a1}\n\u{25a0}\u{25a1}\u{25a0}\n");
}

#[test]
fn render_of_a_single_cell() {
    let mut universe = grid(1, 1, &[]);
    assert_eq!(universe.render(), "\u{25a1}\n");
    universe.toggle_cell(0, 0);
    assert_eq!(universe.render(), "\u{25a0}\n");
}

#[test]
fn render_of_the_seeded_grid_has_a_glyph_per_cell() {
    let universe = Universe::new();
    let text = universe.render();
    let lines: Vec<&str> = text.lines().collect();
    assert_eq!(lines.len(), 64);
    let cells = universe.get_cells();
    for (row, line) in lines.iter().enumerate() {
        let glyphs: Vec<char> = line.chars().collect();
        assert_eq!(glyphs.len(), 64);
        for (col, glyph) in glyphs.iter().enumerate() {
            let expected = if cells[row * 64 + col] == Cell::Alive {
                '\u{25a0}'
            } else {
                '\u{25a1}'
            };
            assert_eq!(*glyph, expected);
        }
    }
    assert!(text.ends_with('\n'));
}

#[test]
fn render_does_not_change_the_grid() {
    let universe = Universe::new();
    let before = universe.get_cells();
    let first = universe.render();
    let second = universe.render();
    assert_eq!(first, second);
    assert_eq!(universe.get_cells(), before);
}
