use game_of_life::{Cell, GridError, Universe};

fn cell_at(u: &Universe, row: u32, col: u32) -> Cell {
    u.get_cells()[(row * u.width() + col) as usize]
}

#[test]
fn new_is_40_by_40_and_all_dead() {
    let u = Universe::new();
    assert_eq!(u.width(), 40);
    assert_eq!(u.height(), 40);
    let cells = u.get_cells();
    assert_eq!(cells.len(), 1600);
    assert!(cells.iter().all(|&c| c == Cell::Dead));
}

#[test]
fn cells_copies_the_whole_buffer() {
    let mut u = Universe::new();
    u.toggle_cell(3, 4).unwrap();
    let copy = u.cells();
    assert_eq!(&copy, u.get_cells());
    assert_eq!(copy.len(), 1600);
    assert_eq!(copy[(3 * 40 + 4) as usize], Cell::Alive);
}

#[test]
fn tick_is_deterministic() {
    let seed: &[(u32, u32)] = &[(1, 1), (1, 2), (1, 3), (7, 7), (8, 8), (9, 7), (20, 20)];
    let mut a = Universe::new();
    let mut b = Universe::new();
    a.set_cells(seed).unwrap();
    b.set_cells(seed).unwrap();
    a.tick();
    b.tick();
    assert_eq!(a.get_cells(), b.get_cells());
    assert_eq!(a.render(), b.render());
}

#[test]
fn single_cell_starves_and_dies() {
    let mut u = Universe::new();
    u.set_width(3).unwrap();
    u.set_height(3).unwrap();
    u.toggle_cell(0, 0).unwrap();
    u.tick();
    assert!(u.get_cells().iter().all(|&c| c == Cell::Dead));
}

#[test]
fn purge_kills_everything_and_is_idempotent() {
    let mut u = Universe::new();
    u.set_cells(&[(0, 0), (5, 5), (39, 39)]).unwrap();
    u.purge();
    assert!(u.get_cells().iter().all(|&c| c == Cell::Dead));
    let before = u.cells();
    u.purge();
    assert_eq!(&before, u.get_cells());
    assert_eq!(u.width(), 40);
    assert_eq!(u.height(), 40);
}

#[test]
fn reset_behaves_exactly_as_purge() {
    let seed: &[(u32, u32)] = &[(2, 3), (4, 5), (6, 7)];
    let mut a = Universe::new();
    let mut b = Universe::new();
    a.set_cells(seed).unwrap();
    b.set_cells(seed).unwrap();
    a.purge();
    b.reset();
    assert_eq!(a.get_cells(), b.get_cells());
}

#[test]
fn set_width_resets_the_grid() {
    let mut u = Universe::new();
    u.set_cells(&[(0, 0), (1, 1), (2, 2)]).unwrap();
    u.tick();
    u.toggle_cell(5, 5).unwrap();
    assert_eq!(u.set_width(7), Ok(()));
    assert_eq!(u.width(), 7);
    assert_eq!(u.height(), 40);
    assert_eq!(u.get_cells().len(), 7 * 40);
    assert!(u.get_cells().iter().all(|&c| c == Cell::Dead));
}

#[test]
fn set_height_resets_the_grid() {
    let mut u = Universe::new();
    u.set_cells(&[(10, 10), (11, 10)]).unwrap();
    assert_eq!(u.set_height(5), Ok(()));
    assert_eq!(u.width(), 40);
    assert_eq!(u.height(), 5);
    assert_eq!(u.get_cells().len(), 40 * 5);
    assert!(u.get_cells().iter().all(|&c| c == Cell::Dead));
}

#[test]
fn zero_dimensions_are_refused_and_state_is_kept() {
    let mut u = Universe::new();
    u.set_cells(&[(3, 3)]).unwrap();
    let before = u.cells();
    assert_eq!(u.set_width(0), Err(GridError::ZeroDimension));
    assert_eq!(u.set_height(0), Err(GridError::ZeroDimension));
    assert_eq!(u.width(), 40);
    assert_eq!(u.height(), 40);
    assert_eq!(&before, u.get_cells());
}

#[test]
fn toggle_out_of_bounds_is_rejected_and_grid_unmodified() {
    let mut u = Universe::new();
    u.set_cells(&[(1, 1), (2, 2)]).unwrap();
    let before = u.cells();
    let height = u.height();
    assert_eq!(u.toggle_cell(height, 0), Err(GridError::OutOfBounds));
    assert_eq!(u.toggle_cell(0, u.width()), Err(GridError::OutOfBounds));
    assert_eq!(&before, u.get_cells());
}

#[test]
fn toggle_flips_and_flips_back() {
    let mut u = Universe::new();
    assert_eq!(cell_at(&u, 4, 9), Cell::Dead);
    assert_eq!(u.toggle_cell(4, 9), Ok(()));
    assert_eq!(cell_at(&u, 4, 9), Cell::Alive);
    assert_eq!(u.toggle_cell(4, 9), Ok(()));
    assert_eq!(cell_at(&u, 4, 9), Cell::Dead);
}

#[test]
fn set_cells_rejects_any_bad_coordinate_and_keeps_the_grid() {
    let mut u = Universe::new();
    u.toggle_cell(0, 0).unwrap();
    let before = u.cells();
    assert_eq!(
        u.set_cells(&[(1, 1), (40, 0)]),
        Err(GridError::OutOfBounds)
    );
    assert_eq!(&before, u.get_cells());
}

#[test]
fn set_cells_forces_alive_and_leaves_the_rest() {
    let mut u = Universe::new();
    u.toggle_cell(0, 1).unwrap();
    u.set_cells(&[(0, 0), (0, 1), (2, 3)]).unwrap();
    assert_eq!(cell_at(&u, 0, 0), Cell::Alive);
    assert_eq!(cell_at(&u, 0, 1), Cell::Alive);
    assert_eq!(cell_at(&u, 2, 3), Cell::Alive);
    assert_eq!(cell_at(&u, 1, 1), Cell::Dead);
}

#[test]
fn random_uses_one_flip_per_cell() {
    let mut u = Universe::new();
    u.set_width(2).unwrap();
    u.set_height(2).unwrap();
    u.random(&[true, false, false, true]);
    assert_eq!(
        u.get_cells(),
        &vec![Cell::Alive, Cell::Dead, Cell::Dead, Cell::Alive]
    );
    u.random(&[false, false, false, false]);
    assert!(u.get_cells().iter().all(|&c| c == Cell::Dead));
}

#[test]
fn render_is_one_line_per_row_with_fixed_glyphs() {
    let mut u = Universe::new();
    u.set_width(3).unwrap();
    u.set_height(3).unwrap();
    u.toggle_cell(0, 1).unwrap();
    u.toggle_cell(2, 2).unwrap();
    assert_eq!(
        u.render(),
        "\u{25FB}\u{25FC}\u{25FB}\n\u{25FB}\u{25FB}\u{25FB}\n\u{25FB}\u{25FB}\u{25FC}\n"
    );
}

#[test]
fn render_of_a_2x2_grid_with_one_live_cell() {
    let mut u = Universe::new();
    u.set_width(2).unwrap();
    u.set_height(2).unwrap();
    u.set_cells(&[(0, 1)]).unwrap();
    assert_eq!(u.render(), "\u{25FB}\u{25FC}\n\u{25FB}\u{25FB}\n");
}

#[test]
fn render_of_default_grid_has_40_lines_of_40_hollow_squares() {
    let u = Universe::new();
    let text = u.render();
    let lines: Vec<&str> = text.split_terminator('\n').collect();
    assert_eq!(lines.len(), 40);
    assert!(lines
        .iter()
        .all(|l| l.chars().count() == 40 && l.chars().all(|c| c == '\u{25FB}')));
}
