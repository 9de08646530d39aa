use game_of_life::{Cell, Universe};

fn live_coords(u: &Universe) -> Vec<(u32, u32)> {
    let mut live = Vec::new();
    for row in 0..u.height() {
        for col in 0..u.width() {
            if u.get_cells()[(row * u.width() + col) as usize] == Cell::Alive {
                live.push((row, col));
            }
        }
    }
    live
}

#[test]
fn corner_cell_sees_the_opposite_corner_through_the_torus() {
    // A single live cell at (0, 0) on a 3x3 grid: through wraparound it is a
    // neighbor of every other cell, so each of the 8 dead cells counts one
    // live neighbor and stays dead, and the lone cell starves.
    let mut u = Universe::new();
    u.set_width(3).unwrap();
    u.set_height(3).unwrap();
    u.set_cells(&[(0, 0)]).unwrap();
    u.tick();
    assert!(live_coords(&u).is_empty());

    // A 2x2 block split across all four corners of a 5x5 torus is the same
    // block pattern under wraparound, so it is a still life: each corner
    // cell keeps exactly 3 wrapped live neighbors.
    let mut v = Universe::new();
    v.set_width(5).unwrap();
    v.set_height(5).unwrap();
    v.set_cells(&[(0, 0), (0, 4), (4, 0), (4, 4)]).unwrap();
    v.tick();
    assert_eq!(live_coords(&v), vec![(0, 0), (0, 4), (4, 0), (4, 4)]);
}

#[test]
fn block_is_a_still_life() {
    let mut u = Universe::new();
    u.set_width(4).unwrap();
    u.set_height(4).unwrap();
    u.set_cells(&[(1, 1), (1, 2), (2, 1), (2, 2)]).unwrap();
    let before = u.cells();
    for _ in 0..5 {
        u.tick();
        assert_eq!(&before, u.get_cells());
    }
}

#[test]
fn block_on_the_smallest_allowed_grid_is_a_still_life() {
    let mut u = Universe::new();
    u.set_width(3).unwrap();
    u.set_height(3).unwrap();
    u.set_cells(&[(0, 0), (0, 1), (1, 0), (1, 1)]).unwrap();
    let before = u.cells();
    u.tick();
    assert_eq!(&before, u.get_cells());
}

#[test]
fn blinker_oscillates_with_period_two() {
    let mut u = Universe::new();
    u.set_width(5).unwrap();
    u.set_height(5).unwrap();
    u.set_cells(&[(1, 0), (1, 1), (1, 2)]).unwrap();
    let horizontal = u.cells();
    u.tick();
    assert_eq!(live_coords(&u), vec![(0, 1), (1, 1), (2, 1)]);
    u.tick();
    assert_eq!(&horizontal, u.get_cells());
}
