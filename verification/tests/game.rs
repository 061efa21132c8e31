use tetrs::game_state::GameState;
use tetrs::game_state::MAX_LEVEL;
use tetrs::game_state::MAX_SPEED;
use tetrs::session::GameEvent;
use tetrs::session::TetrsState;
use tetrs::tetromino::BlockState;
use tetrs::tetromino::Tetromino;

#[test]
fn score_level_derivation() {
    let mut g = GameState::default();
    g.score = 39;
    g.update_level();
    assert_eq!(g.level, 1);
    g.score = 40;
    g.update_level();
    assert_eq!(g.level, 2);
    g.score = 0;
    g.update_level();
    assert_eq!(g.level, 0);
}

#[test]
fn level_clamps_at_maximum() {
    let mut g = GameState::default();
    g.score = 20 * 1000;
    g.update_level();
    assert_eq!(g.level, MAX_LEVEL);
}

#[test]
fn update_score_adds_one_point_per_row() {
    let mut g = GameState::default();
    g.update_score(0);
    assert_eq!(g.score, 0);
    assert_eq!(g.level, 0);
    g.update_score(3);
    assert_eq!(g.score, 3);
    g.update_score(25);
    assert_eq!(g.score, 28);
    assert_eq!(g.level, 1);
}

#[test]
fn speed_cadence_from_level() {
    let mut g = GameState::default();
    assert_eq!(g.current_speed(), MAX_SPEED);
    g.score = 20 * 7;
    g.update_level();
    assert_eq!(g.current_speed(), MAX_SPEED - 7);
    g.score = 20 * 1000;
    g.update_level();
    assert_eq!(g.current_speed(), MAX_SPEED - MAX_LEVEL);
}

#[test]
fn step_time_fires_on_cadence() {
    let mut g = GameState::default();
    g.current_tetromino = Tetromino::eye().into_current();
    let y0 = g.current_tetromino.y;
    g.time_elapsed = MAX_SPEED + 1; // one past the cadence at level 0
    let stepped = g.step_time();
    assert!(stepped);
    assert_eq!(g.current_tetromino.y, y0 + 1);
    assert_eq!(g.time_elapsed, 1);
    assert_eq!(g.steps_elapsed, 1);
}

#[test]
fn step_time_waits_below_cadence() {
    let mut g = GameState::default();
    g.current_tetromino = Tetromino::eye().into_current();
    let y0 = g.current_tetromino.y;
    let stepped = g.step_time();
    assert!(!stepped);
    assert_eq!(g.current_tetromino.y, y0);
    assert_eq!(g.time_elapsed, 1);
    assert_eq!(g.steps_elapsed, 1);
}

#[test]
fn soft_drop_keeps_clock() {
    let mut g = GameState::default();
    g.current_tetromino = Tetromino::eye().into_current();
    g.time_elapsed = 5;
    let y0 = g.current_tetromino.y;
    g.tetromino_down();
    assert_eq!(g.current_tetromino.y, y0 + 1);
    assert_eq!(g.time_elapsed, 5);
}

#[test]
fn side_moves_respect_walls() {
    let mut g = GameState::default();
    let mut p = Tetromino::ohh().into_current();
    p.x = 10; // width 2: flush against the right wall
    p.y = 0;
    g.current_tetromino = p;
    g.tetromino_right();
    assert_eq!(g.current_tetromino.x, 10);
    g.tetromino_left();
    assert_eq!(g.current_tetromino.x, 9);

    g.current_tetromino.x = 0;
    g.tetromino_left();
    assert_eq!(g.current_tetromino.x, 0);
}

#[test]
fn rotation_rejected_when_it_does_not_fit() {
    let mut g = GameState::default();
    let mut p = Tetromino::eye().into_current();
    p.tetromino.rotate(); // horizontal, 1 x 4
    p.x = 8;
    p.y = 10;
    g.current_tetromino = p;
    // Block the turn with a full row through the would-be vertical span.
    for j in 0..12 {
        g.blocks[12][j] = BlockState::Arr;
    }
    g.tetromino_rotate();
    // The vertical shape would occupy rows 10..14 and hit the full row 12,
    // so the piece keeps its horizontal shape.
    assert_eq!(g.current_tetromino.tetromino.shape.len(), 1);
    assert_eq!(g.current_tetromino.tetromino.shape[0].len(), 4);
}

#[test]
fn rotation_applied_when_it_fits() {
    let mut g = GameState::default();
    let mut p = Tetromino::eye().into_current();
    p.x = 5;
    p.y = 10;
    g.current_tetromino = p;
    g.tetromino_rotate();
    assert_eq!(g.current_tetromino.tetromino.shape.len(), 1);
    assert_eq!(g.current_tetromino.tetromino.shape[0].len(), 4);
    assert_eq!(g.current_tetromino.x, 5);
    assert_eq!(g.current_tetromino.y, 10);
}

#[test]
fn commit_promotes_queued_piece() {
    let mut g = GameState::default();
    let mut p = Tetromino::eye().into_current();
    p.x = 5;
    p.y = 24; // resting on the floor: the next descent commits
    g.current_tetromino = p;
    let queued_shape = g.next_tetromino.tetromino.shape.clone();
    let queued_x = g.next_tetromino.x;
    let queued_y = g.next_tetromino.y;
    g.tetromino_down();
    assert_eq!(g.current_tetromino.tetromino.shape, queued_shape);
    assert_eq!(g.current_tetromino.x, queued_x);
    assert_eq!(g.current_tetromino.y, queued_y);
    assert_eq!(g.blocks[27][5], BlockState::Eye);
}

#[test]
fn fresh_game_starts_empty() {
    let g = GameState::default();
    assert_eq!(g.score, 0);
    assert_eq!(g.level, 0);
    assert_eq!(g.time_elapsed, 0);
    assert_eq!(g.steps_elapsed, 0);
    for row in &g.blocks {
        assert!(row.iter().all(|b| *b == BlockState::Emp));
    }
    assert_eq!(g.blocks.len(), 28);
    assert!(g.blocks.iter().all(|row| row.len() == 12));
}

#[test]
fn session_transitions() {
    let s = TetrsState::Bootstrapped;
    assert!(!s.is_running());
    let s = s.ticked();
    assert_eq!(s, TetrsState::Running);
    assert!(s.is_running());
    assert_eq!(s.ticked(), TetrsState::Running);

    let paused = s.toggle_pause();
    assert_eq!(paused, TetrsState::Paused);
    assert!(!paused.is_running());
    assert_eq!(paused.ticked(), TetrsState::Paused);
    assert_eq!(paused.toggle_pause(), TetrsState::Running);

    let finished = s.finish();
    assert_eq!(finished, TetrsState::Finished);
    assert!(!finished.is_running());
    // Finished is terminal: neither ticks nor the pause toggle leave it.
    assert_eq!(finished.ticked(), TetrsState::Finished);
    assert_eq!(finished.toggle_pause(), TetrsState::Finished);
}

#[test]
fn game_events_compare() {
    assert_eq!(GameEvent::Step, GameEvent::Step);
    assert_ne!(GameEvent::Step, GameEvent::Pause);
    assert_ne!(GameEvent::Fullscreen, GameEvent::Finished);
}
