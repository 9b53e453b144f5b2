use game_of_life::engine::GameOfLife;
use game_of_life::model::LifeError;

/// Reads the whole board through `cell`, row by row.
fn snapshot(g: &GameOfLife) -> Vec<bool> {
    let mut cells = Vec::new();
    for y in 0..g.height() {
        for x in 0..g.width() {
            cells.push(g.cell(x, y).unwrap());
        }
    }
    cells
}

fn engine_with_cells(width: usize, height: usize, live: &[(usize, usize)]) -> GameOfLife {
    let mut g = GameOfLife::new(width, height).unwrap();
    for &(x, y) in live {
        g.set_cell(x, y, true).unwrap();
    }
    g
}

#[test]
fn new_rejects_zero_dimensions() {
    assert_eq!(GameOfLife::new(0, 5).unwrap_err(), LifeError::InvalidDimensions);
    assert_eq!(GameOfLife::new(5, 0).unwrap_err(), LifeError::InvalidDimensions);
    assert_eq!(GameOfLife::new(0, 0).unwrap_err(), LifeError::InvalidDimensions);
}

#[test]
fn new_board_starts_dead_and_stopped() {
    let g = GameOfLife::new(3, 4).unwrap();
    assert_eq!(g.width(), 3);
    assert_eq!(g.height(), 4);
    assert!(!g.is_running());
    assert_eq!(snapshot(&g), vec![false; 12]);
}

#[test]
fn cell_is_bounds_checked() {
    let g = GameOfLife::new(3, 4).unwrap();
    for y in 0..4 {
        for x in 0..3 {
            assert_eq!(g.cell(x, y), Ok(false));
        }
    }
    assert_eq!(g.cell(3, 0).unwrap_err(), LifeError::OutOfBounds);
    assert_eq!(g.cell(0, 4).unwrap_err(), LifeError::OutOfBounds);
    assert_eq!(g.cell(3, 4).unwrap_err(), LifeError::OutOfBounds);
    assert_eq!(g.cell(usize::MAX, 0).unwrap_err(), LifeError::OutOfBounds);
}

#[test]
fn edits_are_bounds_checked_first() {
    let mut g = GameOfLife::new(3, 3).unwrap();
    assert_eq!(g.toggle_cell(3, 0).unwrap_err(), LifeError::OutOfBounds);
    assert_eq!(g.set_cell(0, 3, true).unwrap_err(), LifeError::OutOfBounds);
    g.start();
    // Out of bounds wins over the running refusal.
    assert_eq!(g.toggle_cell(3, 0).unwrap_err(), LifeError::OutOfBounds);
    assert_eq!(g.set_cell(0, 3, true).unwrap_err(), LifeError::OutOfBounds);
}

#[test]
fn edits_refused_while_running() {
    let mut g = engine_with_cells(4, 4, &[(1, 1)]);
    let before = snapshot(&g);
    g.start();
    assert_eq!(g.toggle_cell(0, 0).unwrap_err(), LifeError::EditWhileRunning);
    assert_eq!(g.set_cell(2, 2, true).unwrap_err(), LifeError::EditWhileRunning);
    assert_eq!(snapshot(&g), before);
    g.stop();
    assert_eq!(g.toggle_cell(0, 0), Ok(()));
    assert_eq!(g.set_cell(2, 2, true), Ok(()));
    assert_eq!(g.cell(0, 0), Ok(true));
    assert_eq!(g.cell(2, 2), Ok(true));
}

#[test]
fn step_is_a_noop_while_stopped() {
    let mut g = engine_with_cells(5, 5, &[(1, 2), (2, 2), (3, 2), (0, 0)]);
    let before = snapshot(&g);
    assert!(!g.is_running());
    for _ in 0..5 {
        g.step();
        assert_eq!(snapshot(&g), before);
    }
}

#[test]
fn corner_neighbors_wrap_around() {
    // On a 3x3 board the live cells (2, 0), (0, 2) and (2, 2) are all
    // neighbours of (0, 0) through column, row and diagonal wrap, so the
    // dead corner is born with exactly three live neighbours.
    let mut g = engine_with_cells(3, 3, &[(2, 0), (0, 2), (2, 2)]);
    g.start();
    g.step();
    assert_eq!(g.cell(0, 0), Ok(true));
}

#[test]
fn lone_corner_cell_dies() {
    let mut g = engine_with_cells(3, 3, &[(0, 0)]);
    g.start();
    g.step();
    assert_eq!(snapshot(&g), vec![false; 9]);
}

#[test]
fn block_is_a_still_life() {
    let block = [(1, 1), (2, 1), (1, 2), (2, 2)];
    let mut g = engine_with_cells(5, 5, &block);
    let before = snapshot(&g);
    g.start();
    for _ in 0..4 {
        g.step();
        assert_eq!(snapshot(&g), before);
    }
}

#[test]
fn blinker_oscillates_with_period_two() {
    let horizontal = [(1, 2), (2, 2), (3, 2)];
    let vertical = [(2, 1), (2, 2), (2, 3)];
    let mut g = engine_with_cells(5, 5, &horizontal);
    let start_grid = snapshot(&g);
    let expected_vertical = snapshot(&engine_with_cells(5, 5, &vertical));
    g.start();
    g.step();
    assert_eq!(snapshot(&g), expected_vertical);
    g.step();
    assert_eq!(snapshot(&g), start_grid);
}

#[test]
fn toggle_twice_restores_the_cell() {
    let mut g = engine_with_cells(4, 3, &[(0, 1), (2, 2)]);
    let before = snapshot(&g);
    assert_eq!(g.toggle_cell(2, 2), Ok(()));
    assert_eq!(g.cell(2, 2), Ok(false));
    assert_eq!(g.toggle_cell(2, 2), Ok(()));
    assert_eq!(snapshot(&g), before);
}

#[test]
fn set_cell_is_idempotent() {
    let mut g = GameOfLife::new(4, 3).unwrap();
    assert_eq!(g.set_cell(1, 1, true), Ok(()));
    let after_first = snapshot(&g);
    assert_eq!(g.set_cell(1, 1, true), Ok(()));
    assert_eq!(snapshot(&g), after_first);
    assert_eq!(g.set_cell(1, 1, false), Ok(()));
    assert_eq!(g.cell(1, 1), Ok(false));
}

#[test]
fn run_state_transitions_are_idempotent() {
    let mut g = engine_with_cells(3, 3, &[(1, 1)]);
    let before = snapshot(&g);
    g.start();
    g.start();
    assert!(g.is_running());
    g.stop();
    g.stop();
    assert!(!g.is_running());
    g.start();
    g.stop();
    assert!(!g.is_running());
    // The transitions themselves never touch the grid.
    assert_eq!(snapshot(&g), before);
}

#[test]
fn toggle_run_flips_the_state() {
    let mut g = GameOfLife::new(2, 2).unwrap();
    assert!(!g.is_running());
    g.toggle_run();
    assert!(g.is_running());
    g.toggle_run();
    assert!(!g.is_running());
}

#[test]
fn glider_moves_diagonally() {
    // The classic glider shifts itself one cell down and one right every
    // four generations; on a toroidal 8x8 board it simply keeps going.
    let glider = [(1, 0), (2, 1), (0, 2), (1, 2), (2, 2)];
    let shifted: Vec<(usize, usize)> = glider.iter().map(|&(x, y)| (x + 1, y + 1)).collect();
    let mut g = engine_with_cells(8, 8, &glider);
    let expected = snapshot(&engine_with_cells(8, 8, &shifted));
    g.start();
    for _ in 0..4 {
        g.step();
    }
    assert_eq!(snapshot(&g), expected);
}
