use wasm_game_of_life::{Cell, CellCoordinates, Universe};

fn live_cells(universe: &Universe) -> Vec<(u16, u16)> {
    let width = universe.width() as usize;
    let mut live = Vec::new();
    for (index, cell) in universe.get_cells().iter().enumerate() {
        if *cell == Cell::Alive {
            live.push(((index / width) as u16, (index % width) as u16));
        }
    }
    live
}

fn alternating(n: usize) -> Vec<bool> {
    (0..n).map(|i| i % 2 == 0).collect()
}

fn input_spaceship() -> Universe {
    let mut universe = Universe::new_empty_with_dimensions(6, 6);
    universe.set_cells(&[
        CellCoordinates(1, 2),
        CellCoordinates(2, 3),
        CellCoordinates(3, 1),
        CellCoordinates(3, 2),
        CellCoordinates(3, 3),
    ]);
    universe
}

fn expected_spaceship() -> Universe {
    let mut universe = Universe::new_empty_with_dimensions(6, 6);
    universe.set_cells(&[
        CellCoordinates(2, 1),
        CellCoordinates(2, 3),
        CellCoordinates(3, 2),
        CellCoordinates(3, 3),
        CellCoordinates(4, 2),
    ]);
    universe
}

#[test]
fn test_reset() {
    let mut input_universe = Universe::new_empty_with_dimensions(6, 6);
    let not_expected_universe = Universe::new_empty_with_dimensions(6, 6);

    input_universe.reset(&alternating(36));
    assert_ne!(&input_universe.get_cells(), &not_expected_universe.get_cells());
    assert_eq!(input_universe.get_cells()[0], Cell::Alive);
    assert_eq!(input_universe.get_cells()[1], Cell::Dead);
    assert_eq!(input_universe.changed_cells_length(), 36);
    assert_eq!(input_universe.changed_cells()[7], CellCoordinates(1, 1));
}

#[test]
fn test_clear() {
    let mut input_universe = Universe::new_with_dimensions(6, 6, &alternating(36));
    let expected_universe = Universe::new_empty_with_dimensions(6, 6);
    assert_eq!(live_cells(&input_universe).len(), 18);

    input_universe.clear();
    assert_eq!(&input_universe.get_cells(), &expected_universe.get_cells());
    assert!(live_cells(&input_universe).is_empty());
    assert_eq!(input_universe.changed_cells_length(), 36);
}

#[test]
fn test_toggle() {
    let mut input_universe = Universe::new_empty_with_dimensions(2, 2);

    let mut expected_universe = Universe::new_empty_with_dimensions(2, 2);
    expected_universe.set_cells(&[CellCoordinates(0, 0)]);

    input_universe.toggle_cell(0, 0);
    assert_eq!(&input_universe.get_cells(), &expected_universe.get_cells());
    assert_eq!(live_cells(&input_universe), vec![(0, 0)]);
}

#[test]
fn test_tick() {
    let mut input_universe = input_spaceship();
    let expected_universe = expected_spaceship();

    input_universe.tick();
    assert_eq!(&input_universe.get_cells(), &expected_universe.get_cells());
    assert_eq!(live_cells(&input_universe), vec![(2, 1), (2, 3), (3, 2), (3, 3), (4, 2)]);
}

#[test]
fn tick_is_deterministic() {
    let mut a = input_spaceship();
    let mut b = input_spaceship();
    b.toggle_cell(0, 0);
    b.toggle_cell(0, 0);
    for _ in 0..10 {
        a.tick();
        b.tick();
        assert_eq!(a.get_cells(), b.get_cells());
    }
}

#[test]
fn tick_appends_changes_in_row_major_order() {
    let mut universe = input_spaceship();
    assert_eq!(universe.changed_cells_length(), 5);
    universe.tick();
    let changed: Vec<CellCoordinates> = universe.changed_cells().to_vec();
    assert_eq!(
        changed,
        vec![
            CellCoordinates(1, 2),
            CellCoordinates(2, 3),
            CellCoordinates(3, 1),
            CellCoordinates(3, 2),
            CellCoordinates(3, 3),
            CellCoordinates(1, 2),
            CellCoordinates(2, 1),
            CellCoordinates(3, 1),
            CellCoordinates(4, 2),
        ]
    );
}

#[test]
fn rule_table_for_every_cell_and_count() {
    for n in 0u8..=8 {
        let alive = if n == 2 || n == 3 { Cell::Alive } else { Cell::Dead };
        let dead = if n == 3 { Cell::Alive } else { Cell::Dead };
        assert_eq!(Cell::Alive.next_state(n), alive);
        assert_eq!(Cell::Dead.next_state(n), dead);
    }
}

#[test]
fn cell_helpers() {
    let mut cell = Cell::Dead;
    cell.toggle();
    assert_eq!(cell, Cell::Alive);
    cell.toggle();
    assert_eq!(cell, Cell::Dead);
    assert_eq!(Cell::Alive.count(), 1);
    assert_eq!(Cell::Dead.count(), 0);
    assert_eq!(Cell::from_sample(true), Cell::Alive);
    assert_eq!(Cell::from_sample(false), Cell::Dead);
}

#[test]
fn neighbors_wrap_at_every_edge() {
    let mut universe = Universe::new_empty_with_dimensions(5, 4);
    universe.set_cells(&[CellCoordinates(3, 2)]);
    assert_eq!(universe.live_neighbor_count(0, 2), 1);
    assert_eq!(universe.live_neighbor_count(0, 1), 1);
    assert_eq!(universe.live_neighbor_count(0, 3), 1);
    assert_eq!(universe.live_neighbor_count(1, 2), 0);
    assert_eq!(universe.live_neighbor_count(3, 2), 0);

    universe.set_cells(&[CellCoordinates(0, 0)]);
    assert_eq!(universe.live_neighbor_count(3, 4), 1);
    assert_eq!(universe.live_neighbor_count(0, 4), 1);
    assert_eq!(universe.live_neighbor_count(3, 0), 1);
    assert_eq!(universe.live_neighbor_count(1, 1), 1);
}

#[test]
fn neighbors_in_a_single_cell_universe() {
    let mut universe = Universe::new_empty_with_dimensions(1, 1);
    assert_eq!(universe.live_neighbor_count(0, 0), 0);
    universe.toggle_cell(0, 0);
    assert_eq!(universe.live_neighbor_count(0, 0), 8);
    universe.tick();
    assert_eq!(universe.get_cells(), &[Cell::Dead]);
}

#[test]
fn clear_twice_is_clear_once() {
    let mut universe = Universe::new_with_dimensions(3, 2, &alternating(6));
    universe.clear();
    let cells: Vec<Cell> = universe.cells().to_vec();
    let changed: Vec<CellCoordinates> = universe.changed_cells().to_vec();
    universe.clear();
    assert_eq!(universe.cells(), &cells[..]);
    assert_eq!(universe.changed_cells(), &changed[..]);
    assert_eq!(cells, vec![Cell::Dead; 6]);
    assert_eq!(changed[4], CellCoordinates(1, 1));
}

#[test]
fn toggle_twice_restores_and_accumulates() {
    let mut universe = Universe::new_empty_with_dimensions(4, 4);
    universe.toggle_cell(2, 3);
    assert_eq!(live_cells(&universe), vec![(2, 3)]);
    universe.toggle_cell(2, 3);
    assert!(live_cells(&universe).is_empty());
    assert_eq!(
        universe.changed_cells(),
        &[CellCoordinates(2, 3), CellCoordinates(2, 3)]
    );
    universe.changed_cells_clear();
    assert_eq!(universe.changed_cells_length(), 0);
}

#[test]
fn set_cells_reports_exactly_what_was_set() {
    let mut universe = Universe::new_with_dimensions(3, 3, &alternating(9));
    universe.tick();
    universe.set_cells(&[CellCoordinates(0, 0)]);
    assert_eq!(universe.changed_cells(), &[CellCoordinates(0, 0)]);
    assert_eq!(universe.get_cells()[0], Cell::Alive);
    universe.set_cells(&[CellCoordinates(0, 0), CellCoordinates(0, 0)]);
    assert_eq!(universe.changed_cells_length(), 2);
}

#[test]
fn constructors_and_dimensions() {
    let universe = Universe::new_empty_with_dimensions(7, 3);
    assert_eq!(universe.width(), 7);
    assert_eq!(universe.height(), 3);
    assert_eq!(universe.get_cells().len(), 21);
    assert_eq!(universe.changed_cells_length(), 0);

    let samples = alternating(128 * 128);
    let universe = Universe::new(&samples);
    assert_eq!(universe.width(), 128);
    assert_eq!(universe.height(), 128);
    assert_eq!(universe.get_cells()[2], Cell::Alive);
    assert_eq!(universe.get_cells()[3], Cell::Dead);
}

#[test]
fn clear_square_wraps_and_leaves_the_rest() {
    let mut universe = Universe::new_with_dimensions(6, 6, &vec![true; 36]);
    universe.clear_square(0, 0, 1);
    let mut dead = Vec::new();
    for (index, cell) in universe.get_cells().iter().enumerate() {
        if *cell == Cell::Dead {
            dead.push((index / 6, index % 6));
        }
    }
    assert_eq!(
        dead,
        vec![(0, 0), (0, 1), (0, 5), (1, 0), (1, 1), (1, 5), (5, 0), (5, 1), (5, 5)]
    );
    assert_eq!(universe.changed_cells_length(), 0);

    let mut universe = Universe::new_with_dimensions(6, 6, &vec![true; 36]);
    universe.clear_square(2, 2, -1);
    assert_eq!(live_cells(&universe).len(), 36);
    universe.clear_square(2, 2, 0);
    assert_eq!(live_cells(&universe).len(), 35);
    universe.clear_square(2, 2, 9);
    assert!(live_cells(&universe).is_empty());
}

#[test]
fn glider_on_empty_universe() {
    let mut universe = Universe::new_empty_with_dimensions(8, 8);
    universe.insert_glider(3, 4);
    assert_eq!(
        universe.changed_cells(),
        &[
            CellCoordinates(2, 4),
            CellCoordinates(3, 5),
            CellCoordinates(4, 3),
            CellCoordinates(4, 4),
            CellCoordinates(4, 5),
        ]
    );
    assert_eq!(live_cells(&universe), vec![(2, 4), (3, 5), (4, 3), (4, 4), (4, 5)]);
}

#[test]
fn glider_wraps_at_the_corner() {
    let mut universe = Universe::new_empty_with_dimensions(5, 4);
    universe.insert_glider(0, 0);
    assert_eq!(
        universe.changed_cells(),
        &[
            CellCoordinates(3, 0),
            CellCoordinates(0, 1),
            CellCoordinates(1, 4),
            CellCoordinates(1, 0),
            CellCoordinates(1, 1),
        ]
    );
    assert_eq!(live_cells(&universe), vec![(0, 1), (1, 0), (1, 1), (1, 4), (3, 0)]);
}

#[test]
fn glider_clears_its_surroundings() {
    let mut universe = Universe::new_with_dimensions(6, 6, &vec![true; 36]);
    universe.insert_glider(2, 2);
    assert_eq!(universe.get_cells()[2 * 6 + 2], Cell::Dead);
    assert_eq!(universe.get_cells()[1 * 6 + 1], Cell::Dead);
    assert_eq!(universe.get_cells()[1 * 6 + 2], Cell::Alive);
    assert_eq!(universe.get_cells()[0], Cell::Alive);
    assert_eq!(live_cells(&universe).len(), 36 - 9 + 5);
}

#[test]
fn pulsar_on_empty_universe() {
    let mut universe = Universe::new_empty_with_dimensions(20, 20);
    universe.insert_pulsar(8, 8);
    assert_eq!(universe.changed_cells_length(), 48);
    let outer: [i32; 6] = [-4, -3, -2, 2, 3, 4];
    let inner: [i32; 4] = [-6, -1, 1, 6];
    let mut expected = Vec::new();
    for (row, columns) in [
        (-6, &outer[..]),
        (-4, &inner[..]),
        (-3, &inner[..]),
        (-2, &inner[..]),
        (-1, &outer[..]),
        (1, &outer[..]),
        (2, &inner[..]),
        (3, &inner[..]),
        (4, &inner[..]),
        (6, &outer[..]),
    ] {
        for column in columns {
            expected.push(CellCoordinates((8 + row) as u16, (8 + column) as u16));
        }
    }
    assert_eq!(universe.changed_cells(), &expected[..]);
    assert_eq!(universe.changed_cells()[0], CellCoordinates(2, 4));
    assert_eq!(universe.changed_cells()[47], CellCoordinates(14, 12));
    assert_eq!(live_cells(&universe).len(), 48);

    // A pulsar oscillates with period three.
    let start: Vec<Cell> = universe.get_cells().to_vec();
    universe.tick();
    assert_ne!(universe.get_cells(), &start[..]);
    universe.tick();
    universe.tick();
    assert_eq!(universe.get_cells(), &start[..]);
}

#[test]
fn pulsar_wraps_on_a_small_universe() {
    let mut universe = Universe::new_empty_with_dimensions(13, 13);
    universe.insert_pulsar(0, 0);
    assert_eq!(universe.changed_cells_length(), 48);
    assert_eq!(universe.changed_cells()[0], CellCoordinates(7, 9));
    assert_eq!(universe.changed_cells()[6], CellCoordinates(9, 7));
    assert_eq!(live_cells(&universe).len(), 48);
}

#[test]
fn render_draws_rows_of_glyphs() {
    let mut universe = Universe::new_empty_with_dimensions(3, 2);
    universe.set_cells(&[CellCoordinates(0, 1), CellCoordinates(1, 2)]);
    assert_eq!(
        universe.render(),
        "\u{25FB}\u{25FC}\u{25FB}\n\u{25FB}\u{25FB}\u{25FC}\n"
    );
}
