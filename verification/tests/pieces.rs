use tetrs::colours;
use tetrs::tetromino::BlockState;
use tetrs::tetromino::CurrentTetromino;
use tetrs::tetromino::Tetromino;

fn shapes() -> Vec<Tetromino> {
    vec![
        Tetromino::arr(),
        Tetromino::ell(),
        Tetromino::ess(),
        Tetromino::eye(),
        Tetromino::ohh(),
        Tetromino::tee(),
        Tetromino::zee(),
    ]
}

#[test]
fn colour_convert_unpacks_channels() {
    let c = colours::convert(0xD61355);
    assert_eq!(c.red, 0xD6);
    assert_eq!(c.green, 0x13);
    assert_eq!(c.blue, 0x55);
    assert_eq!(c.alpha, 0xFF);

    let black = colours::convert(0x000000);
    assert_eq!(black.red, 0);
    assert_eq!(black.green, 0);
    assert_eq!(black.blue, 0);
    assert_eq!(black.alpha, 0xFF);
}

#[test]
fn templates_have_four_blocks() {
    for t in shapes() {
        let filled: usize = t
            .shape
            .iter()
            .map(|row| row.iter().filter(|b| **b != BlockState::Emp).count())
            .sum();
        assert_eq!(filled, 4);
    }
}

#[test]
fn templates_spawn_just_above_board() {
    for t in shapes() {
        let height = t.shape.len() as i8;
        assert_eq!(t.starting_pos_y, -height);
        let width = t.shape[0].len();
        assert_eq!(t.starting_pos_x, (12 - width) / 2);
    }
}

#[test]
fn rotate_quarter_turn_arr() {
    // xx        x.
    // x.   ->   x.
    // x.        xxx  (the counter-clockwise turn: new[C-1-c][r] == old[r][c])
    let mut t = Tetromino::arr();
    t.rotate();
    let a = BlockState::Arr;
    let e = BlockState::Emp;
    assert_eq!(t.shape, vec![vec![a, e, e], vec![a, a, a]]);
}

#[test]
fn rotate_eye_toggles_orientation() {
    let mut t = Tetromino::eye();
    assert_eq!(t.shape.len(), 4);
    assert_eq!(t.shape[0].len(), 1);
    t.rotate();
    assert_eq!(t.shape.len(), 1);
    assert_eq!(t.shape[0].len(), 4);
    assert!(t.shape[0].iter().all(|b| *b == BlockState::Eye));
}

#[test]
fn rotate_four_times_restores_shape() {
    for original in shapes() {
        let mut t = original.clone();
        for _ in 0..4 {
            t.rotate();
        }
        assert_eq!(t.shape, original.shape);
        assert_eq!(t.colour, original.colour);
    }
}

#[test]
fn next_one_yields_canonical_spawn() {
    // The randomizer must hand back one of the seven templates, placed at
    // exactly that template's spawn anchor.
    let mut seen = [false; 7];
    for _ in 0..64 {
        let p = CurrentTetromino::next_one();
        let matched = shapes().iter().position(|t| {
            t.shape == p.tetromino.shape
                && t.colour == p.tetromino.colour
                && t.starting_pos_x == p.x
                && t.starting_pos_y == p.y
        });
        seen[matched.expect("not a canonical spawn")] = true;
    }
    // 64 uniform draws from seven kinds miss a second kind only with
    // vanishing probability; a draw stuck on one value fails here.
    assert!(seen.iter().filter(|s| **s).count() >= 2);
}

#[test]
fn clone_preserves_piece() {
    let p = Tetromino::tee().into_current();
    let q = p.clone();
    assert_eq!(q.tetromino.shape, p.tetromino.shape);
    assert_eq!(q.tetromino.colour, p.tetromino.colour);
    assert_eq!(q.x, p.x);
    assert_eq!(q.y, p.y);
}

#[test]
fn moves_adjust_anchor() {
    let mut p = Tetromino::ohh().into_current();
    let x0 = p.x;
    let y0 = p.y;
    p.down();
    assert_eq!(p.y, y0 + 1);
    p.right();
    assert_eq!(p.x, x0 + 1);
    p.left();
    p.left();
    assert_eq!(p.x, x0 - 1);
    // The left move clamps at the wall instead of leaving the board.
    let mut q = Tetromino::ohh().into_current();
    q.x = 0;
    q.left();
    assert_eq!(q.x, 0);
}
