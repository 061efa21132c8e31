use tetrs::game_state::GameState;
use tetrs::game_state::NUM_COLS;
use tetrs::game_state::NUM_ROWS;
use tetrs::tetromino::BlockState;
use tetrs::tetromino::Tetromino;

fn count_cells(g: &GameState) -> usize {
    g.blocks
        .iter()
        .map(|row| row.iter().filter(|b| **b != BlockState::Emp).count())
        .sum()
}

#[test]
fn fit_check_accepts_open_floor() {
    let g = GameState::default();
    let mut p = Tetromino::eye().into_current();
    p.x = 5;
    p.y = 24;
    assert!(g.can_do(&p));
}

#[test]
fn fit_check_rejects_below_floor() {
    let g = GameState::default();
    let mut p = Tetromino::eye().into_current();
    p.x = 5;
    p.y = 25; // bottom edge would sit at row 29, one past the floor
    assert!(!g.can_do(&p));
}

#[test]
fn fit_check_rejects_past_right_wall() {
    let g = GameState::default();
    let mut p = Tetromino::zee().into_current();
    p.x = 10; // width 3: right edge would sit at column 13
    p.y = 0;
    assert!(!g.can_do(&p));
    p.x = 9;
    assert!(g.can_do(&p));
}

#[test]
fn fit_check_rejects_overlap() {
    let mut g = GameState::default();
    g.blocks[27][5] = BlockState::Arr;
    let mut p = Tetromino::eye().into_current();
    p.x = 5;
    p.y = 24; // occupies rows 24..28 of column 5, so it hits (27, 5)
    assert!(!g.can_do(&p));
    g.blocks[27][5] = BlockState::Emp;
    assert!(g.can_do(&p));
}

#[test]
fn fit_check_skips_rows_above_board() {
    let mut g = GameState::default();
    for j in 0..NUM_COLS {
        g.blocks[0][j] = BlockState::Arr;
    }
    let p = Tetromino::eye().into_current(); // wholly above the board
    assert!(g.can_do(&p));
}

#[test]
fn commit_writes_four_cells() {
    let mut g = GameState::default();
    let mut p = Tetromino::eye().into_current();
    p.x = 5;
    p.y = 24;
    g.current_tetromino = p;
    assert_eq!(count_cells(&g), 0);
    g.commit();
    assert_eq!(count_cells(&g), 4);
    for i in 24..28 {
        assert_eq!(g.blocks[i][5], BlockState::Eye);
    }
}

#[test]
fn commit_skips_cells_above_board() {
    let mut g = GameState::default();
    let mut p = Tetromino::eye().into_current();
    p.x = 5;
    p.y = -2; // two cells above the top, two cells in view
    g.current_tetromino = p;
    g.commit();
    assert_eq!(count_cells(&g), 2);
    assert_eq!(g.blocks[0][5], BlockState::Eye);
    assert_eq!(g.blocks[1][5], BlockState::Eye);
}

#[test]
fn clear_single_row() {
    let mut g = GameState::default();
    // Row 26 is full; a marker sits above it in row 25 and another below it
    // in row 27.
    for j in 0..NUM_COLS {
        g.blocks[26][j] = BlockState::Arr;
    }
    g.blocks[25][0] = BlockState::Tee;
    g.blocks[27][3] = BlockState::Zee;
    let n = g.remove_lines();
    assert_eq!(n, 1);
    // The row below the cleared one keeps its place.
    assert_eq!(g.blocks[27][3], BlockState::Zee);
    // The row above shifts down by one.
    assert_eq!(g.blocks[26][0], BlockState::Tee);
    assert!(g.blocks[25].iter().all(|b| *b == BlockState::Emp));
    // Exactly one empty row entered at the top.
    assert!(g.blocks[0].iter().all(|b| *b == BlockState::Emp));
    assert_eq!(count_cells(&g), 2);
}

#[test]
fn clear_two_rows_at_once() {
    let mut g = GameState::default();
    for j in 0..NUM_COLS {
        g.blocks[26][j] = BlockState::Arr;
        g.blocks[27][j] = BlockState::Ell;
    }
    g.blocks[25][7] = BlockState::Tee;
    let n = g.remove_lines();
    assert_eq!(n, 2);
    // The kept row collapsed to the bottom, with no gaps and no duplicates.
    assert_eq!(g.blocks[27][7], BlockState::Tee);
    assert_eq!(count_cells(&g), 1);
    for i in 0..27 {
        assert!(g.blocks[i].iter().all(|b| *b == BlockState::Emp));
    }
}

#[test]
fn clear_leaves_partial_rows() {
    let mut g = GameState::default();
    for j in 0..NUM_COLS - 1 {
        g.blocks[27][j] = BlockState::Arr; // one cell short of full
    }
    let n = g.remove_lines();
    assert_eq!(n, 0);
    assert_eq!(count_cells(&g), NUM_COLS - 1);
    assert_eq!(g.blocks[27][0], BlockState::Arr);
    assert_eq!(g.blocks[27][NUM_COLS - 1], BlockState::Emp);
}

#[test]
fn spawn_blocked_detects_overlap() {
    let mut g = GameState::default();
    let mut p = Tetromino::eye().into_current();
    p.x = 5;
    p.y = 0; // the promoted piece's bounding box sits in view here
    g.current_tetromino = p;
    assert!(!g.spawn_blocked());
    g.blocks[2][5] = BlockState::Arr;
    assert!(g.spawn_blocked());
}

#[test]
fn i_piece_falls_to_floor() {
    // Empty board; the I piece spawns vertical at its canonical column and
    // descends until it signals by committing; it must rest on the floor,
    // filling exactly four cells of one column.
    let mut g = GameState::default();
    g.current_tetromino = Tetromino::eye().into_current();
    let mut iterations = 0;
    while count_cells(&g) == 0 {
        g.tetromino_down();
        iterations += 1;
        assert!(iterations <= 40);
    }
    assert_eq!(count_cells(&g), 4);
    for i in NUM_ROWS - 4..NUM_ROWS {
        assert_eq!(g.blocks[i][5], BlockState::Eye);
    }
    assert_eq!(g.blocks[NUM_ROWS - 1][5], BlockState::Eye);
}

#[test]
fn gap_fill_clears_bottom_row() {
    // The bottom row is full except one cell; a piece drops into the gap,
    // commits, and the clearing pass removes the row, making the row above
    // it the new bottom content.
    let mut g = GameState::default();
    for j in 1..NUM_COLS {
        g.blocks[27][j] = BlockState::Arr;
    }
    let mut p = Tetromino::eye().into_current();
    p.x = 0;
    g.current_tetromino = p;
    let mut iterations = 0;
    while count_cells(&g) == NUM_COLS - 1 {
        g.tetromino_down();
        iterations += 1;
        assert!(iterations <= 40);
    }
    // The I piece rests in rows 24..28 of column 0; row 27 is now full.
    let n = g.remove_lines();
    assert_eq!(n, 1);
    // The new bottom row holds what was row 26: just the piece's cell.
    assert_eq!(g.blocks[27][0], BlockState::Eye);
    for j in 1..NUM_COLS {
        assert_eq!(g.blocks[27][j], BlockState::Emp);
    }
    assert_eq!(count_cells(&g), 3);
}
