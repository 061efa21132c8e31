use vstd::prelude::*;

use crate::tetromino::BlockState;
use crate::tetromino::CurrentTetromino;
use crate::tetromino::is_spawn;
use crate::tetromino::lemma_spawn_piece;
use crate::tetromino::rotated;
use crate::tetromino::same_piece;
use crate::tetromino::shape_wf;

verus! {

/// Number of rows of the board; row 0 is the topmost row.
pub const NUM_ROWS: usize = 28;

/// Number of columns of the board.
pub const NUM_COLS: usize = 12;

/// Ticks between forced gravity steps at level 0.
pub const MAX_SPEED: u8 = 42;

/// Highest level that still shortens the gravity cadence.
pub const MAX_LEVEL: u8 = 40;

/// Cleared-line points needed to advance one level.
pub const SCORE_PER_LEVEL: u128 = 20;

/// A full-size board grid: one row sequence per board row.
pub open spec fn board_wf(b: Seq<Seq<BlockState>>) -> bool {
    &&& b.len() == NUM_ROWS
    &&& forall|i: int| 0 <= i < b.len() ==> (#[trigger] b[i]).len() == NUM_COLS
}

/// Every cell of the row is occupied.
pub open spec fn row_full(row: Seq<BlockState>) -> bool {
    forall|j: int| 0 <= j < row.len() ==> (#[trigger] row[j]) != BlockState::Emp
}

/// A board row with every cell empty.
pub open spec fn empty_row() -> Seq<BlockState> {
    Seq::new(NUM_COLS as nat, |j: int| BlockState::Emp)
}

/// The fit-check: the shape's bounding box, anchored at column `x` and row
/// `y`, stays inside the side walls and above the floor, and no occupied
/// shape cell lands on an occupied board cell. Shape cells above the top of
/// the board (negative rows) cannot overlap anything and are skipped; only
/// the bottom edge is constrained against the floor.
pub open spec fn fits(b: Seq<Seq<BlockState>>, shape: Seq<Seq<BlockState>>, x: int, y: int) -> bool {
    &&& 0 <= x
    &&& x + shape[0].len() <= NUM_COLS
    &&& y + shape.len() <= NUM_ROWS
    &&& forall|r: int, c: int| #![trigger shape[r][c]]
        0 <= r < shape.len() && 0 <= c < shape[0].len() && shape[r][c] != BlockState::Emp && 0 <= y
            + r ==> b[y + r][x + c] == BlockState::Emp
}

/// The column a horizontal move by `dx` lands on: clamped at the left wall.
pub open spec fn moved_x(x: int, dx: int) -> int {
    if x + dx >= 0 {
        x + dx
    } else {
        0
    }
}

/// An occupied cell of the shape, anchored at (`x`, `y`), maps to the board
/// cell (`i`, `j`).
pub open spec fn covers(shape: Seq<Seq<BlockState>>, x: int, y: int, i: int, j: int) -> bool {
    &&& 0 <= i - y < shape.len()
    &&& 0 <= j - x < shape[0].len()
    &&& shape[i - y][j - x] != BlockState::Emp
}

/// The board after writing the shape's occupied cells into it; shape cells
/// mapping outside the board's rows are not written.
pub open spec fn committed(
    b: Seq<Seq<BlockState>>,
    shape: Seq<Seq<BlockState>>,
    x: int,
    y: int,
) -> Seq<Seq<BlockState>> {
    Seq::new(
        b.len(),
        |i: int|
            Seq::new(
                b[i].len(),
                |j: int|
                    if covers(shape, x, y, i, j) {
                        shape[i - y][j - x]
                    } else {
                        b[i][j]
                    },
            ),
    )
}

/// The cells the commit loops have already written once every shape row
/// before `pr` is done and the first `pc` columns of shape row `pr` are done.
pub open spec fn covers_partial(
    shape: Seq<Seq<BlockState>>,
    x: int,
    y: int,
    i: int,
    j: int,
    pr: int,
    pc: int,
) -> bool {
    &&& covers(shape, x, y, i, j)
    &&& (i - y < pr || (i - y == pr && j - x < pc))
}

/// The rows of the board that are not full, top to bottom, in order.
pub open spec fn compacted(b: Seq<Seq<BlockState>>) -> Seq<Seq<BlockState>>
    decreases b.len(),
{
    if b.len() == 0 {
        Seq::empty()
    } else if row_full(b[0]) {
        compacted(b.drop_first())
    } else {
        seq![b[0]] + compacted(b.drop_first())
    }
}

/// The board after one clearing pass: every full row removed at once, the
/// kept rows collapsed to the bottom in order, empty rows filling the top.
pub open spec fn cleared(b: Seq<Seq<BlockState>>) -> Seq<Seq<BlockState>> {
    Seq::new((b.len() - compacted(b).len()) as nat, |i: int| empty_row()) + compacted(b)
}

/// How many full rows one clearing pass removes.
pub open spec fn num_cleared(b: Seq<Seq<BlockState>>) -> int {
    b.len() - compacted(b).len()
}

pub proof fn lemma_compacted_len(b: Seq<Seq<BlockState>>)
    ensures
        compacted(b).len() <= b.len(),
    decreases b.len(),
{
    if b.len() > 0 {
        lemma_compacted_len(b.drop_first());
    }
}

/// Compaction keeps whole rows: every kept row has the common width.
pub proof fn lemma_compacted_rows(b: Seq<Seq<BlockState>>, w: int)
    requires
        forall|i: int| 0 <= i < b.len() ==> (#[trigger] b[i]).len() == w,
    ensures
        forall|k: int| 0 <= k < compacted(b).len() ==> (#[trigger] compacted(b)[k]).len() == w,
    decreases b.len(),
{
    if b.len() > 0 {
        assert forall|i: int|
            0 <= i < b.drop_first().len() implies (#[trigger] b.drop_first()[i]).len() == w by {
            assert(b.drop_first()[i] == b[i + 1]);
        }
        lemma_compacted_rows(b.drop_first(), w);
        if row_full(b[0]) {
            assert(compacted(b) == compacted(b.drop_first()));
            assert forall|k: int|
                0 <= k < compacted(b).len() implies (#[trigger] compacted(b)[k]).len() == w by {
                assert(compacted(b)[k] == compacted(b.drop_first())[k]);
            }
        } else {
            assert forall|k: int|
                0 <= k < compacted(b).len() implies (#[trigger] compacted(b)[k]).len() == w by {
                if k == 0 {
                    assert(compacted(b)[0] == b[0]);
                } else {
                    assert(compacted(b)[k] == compacted(b.drop_first())[k - 1]);
                }
            }
        }
    }
}

/// What one gravity step does: a piece that can descend descends one row;
/// one that cannot is committed to the board, and the queued piece is
/// promoted while a fresh spawn takes its place. Either way the board then
/// goes through one clearing pass and the score and level absorb the count
/// of cleared rows. The clock counters are not constrained here.
pub open spec fn gravity_stepped(pre: GameState, post: GameState) -> bool {
    let cur = pre.current_tetromino;
    if fits(pre.blocks_seq(), cur.tetromino.shape_seq(), cur.x as int, cur.y + 1) {
        &&& post.blocks_seq() == cleared(pre.blocks_seq())
        &&& post.score == pre.score + num_cleared(pre.blocks_seq())
        &&& post.level == level_of(post.score)
        &&& post.current_tetromino.tetromino == cur.tetromino
        &&& post.current_tetromino.x == cur.x
        &&& post.current_tetromino.y == cur.y + 1
        &&& post.next_tetromino == pre.next_tetromino
    } else {
        let landed = committed(pre.blocks_seq(), cur.tetromino.shape_seq(), cur.x as int, cur.y as int);
        &&& post.blocks_seq() == cleared(landed)
        &&& post.score == pre.score + num_cleared(landed)
        &&& post.level == level_of(post.score)
        &&& same_piece(post.current_tetromino, pre.next_tetromino)
        &&& is_spawn(post.next_tetromino)
    }
}

/// Level as a pure function of score: one level per `SCORE_PER_LEVEL`
/// points, clamped at `MAX_LEVEL`.
pub open spec fn level_of(score: u128) -> u8 {
    if score / SCORE_PER_LEVEL > MAX_LEVEL as u128 {
        MAX_LEVEL
    } else {
        (score / SCORE_PER_LEVEL) as u8
    }
}

/// Gravity cadence as a pure function of level: faster with every level,
/// clamped at `MAX_LEVEL`.
pub open spec fn speed_of(level: u8) -> u8 {
    if level > MAX_LEVEL {
        (MAX_SPEED - MAX_LEVEL) as u8
    } else {
        (MAX_SPEED - level) as u8
    }
}

/// The game-state aggregate: the persistent board, the falling and the
/// queued piece, and the score/level/clock counters.
pub struct GameState {
    /// The persistent grid of committed cells.
    pub blocks: Vec<Vec<BlockState>>,
    /// One point per cleared row.
    pub score: u128,
    /// Derived from the score; kept in step with it after every update.
    pub level: u8,
    /// The piece currently falling.
    pub current_tetromino: CurrentTetromino,
    /// The piece promoted to `current_tetromino` at the next commit.
    pub next_tetromino: CurrentTetromino,
    /// Ticks since the last forced gravity step.
    pub time_elapsed: u8,
    /// Ticks since the game started.
    pub steps_elapsed: u128,
}

impl GameState {
    /// The board as a mathematical grid of cells.
    pub open spec fn blocks_seq(&self) -> Seq<Seq<BlockState>> {
        self.blocks@.map_values(|row: Vec<BlockState>| row@)
    }

    /// The piece's bounding box lies inside the side walls and above the
    /// floor (it may still stick out above the top of the board).
    pub open spec fn piece_in_bounds(p: CurrentTetromino) -> bool {
        &&& p.x + p.tetromino.shape_seq()[0].len() <= NUM_COLS
        &&& p.y + p.tetromino.shape_seq().len() <= NUM_ROWS
    }

    /// Well-formedness, preserved by every operation: the board has its full
    /// dimensions, the falling piece has a usable in-bounds shape, the queued
    /// piece is a fresh spawn, the level is derived from the score, and the
    /// gravity counter never runs past one tick over the cadence ceiling.
    pub open spec fn wf(&self) -> bool {
        &&& board_wf(self.blocks_seq())
        &&& shape_wf(self.current_tetromino.tetromino.shape_seq())
        &&& Self::piece_in_bounds(self.current_tetromino)
        &&& is_spawn(self.next_tetromino)
        &&& self.level == level_of(self.score)
        &&& self.time_elapsed <= MAX_SPEED + 1
    }

    /// Ticks between forced gravity steps at the present level.
    pub fn current_speed(&self) -> (speed: u8)
        ensures
            speed == speed_of(self.level),
    {
        if self.level > MAX_LEVEL {
            MAX_SPEED - MAX_LEVEL
        } else {
            MAX_SPEED - self.level
        }
    }

    /// The fit-check on a hypothetical piece against this board.
    pub fn can_do(&self, ctetro: &CurrentTetromino) -> (ok: bool)
        requires
            board_wf(self.blocks_seq()),
            shape_wf(ctetro.tetromino.shape_seq()),
        ensures
            ok == fits(
                self.blocks_seq(),
                ctetro.tetromino.shape_seq(),
                ctetro.x as int,
                ctetro.y as int,
            ),
    {
        let ghost b = self.blocks_seq();
        let ghost s = ctetro.tetromino.shape_seq();
        let ghost x = ctetro.x as int;
        let ghost y = ctetro.y as int;
        let tetro_height = ctetro.tetromino.shape.len();
        let tetro_width = ctetro.tetromino.shape[0].len();

        // Bounds check: the left edge is never negative (the column is
        // unsigned and moves clamp at the wall); reject a right edge past the
        // side wall or a bottom edge past the floor.
        if ctetro.x > NUM_COLS - tetro_width {
            return false;
        }
        if (ctetro.y as i32) + (tetro_height as i32) > NUM_ROWS as i32 {
            return false;
        }

        // Overlap check: every occupied shape cell that maps to a board row
        // must land on an empty board cell; rows above the top are skipped.
        let mut r: usize = 0;
        while r < tetro_height
            invariant
                r <= tetro_height,
                board_wf(b),
                shape_wf(s),
                self.blocks_seq() == b,
                ctetro.tetromino.shape_seq() == s,
                ctetro.x == x,
                ctetro.y == y,
                tetro_height == s.len(),
                tetro_width == s[0].len(),
                x + tetro_width <= NUM_COLS,
                y + tetro_height <= NUM_ROWS,
                forall|rr: int, cc: int| #![trigger s[rr][cc]]
                    0 <= rr < r && 0 <= cc < s[0].len() && s[rr][cc] != BlockState::Emp && 0 <= y
                        + rr ==> b[y + rr][x + cc] == BlockState::Emp,
            decreases tetro_height - r,
        {
            let row_i: i32 = ctetro.y as i32 + r as i32;
            if row_i >= 0 {
                let mut c: usize = 0;
                while c < tetro_width
                    invariant
                        c <= tetro_width,
                        r < tetro_height,
                        board_wf(b),
                        shape_wf(s),
                        self.blocks_seq() == b,
                        ctetro.tetromino.shape_seq() == s,
                        ctetro.x == x,
                        ctetro.y == y,
                        tetro_height == s.len(),
                        tetro_width == s[0].len(),
                        x + tetro_width <= NUM_COLS,
                        y + tetro_height <= NUM_ROWS,
                        row_i == y + r,
                        0 <= row_i,
                        forall|cc: int| #![trigger s[r as int][cc]]
                            0 <= cc < c && s[r as int][cc] != BlockState::Emp ==> b[y + r][x + cc]
                                == BlockState::Emp,
                    decreases tetro_width - c,
                {
                    proof {
                        assert(ctetro.tetromino.shape@.len() == s.len());
                        assert(ctetro.tetromino.shape@[r as int]@ == s[r as int]);
                        assert(self.blocks@.len() == b.len());
                        assert(self.blocks@[row_i as int]@ == b[row_i as int]);
                    }
                    let tetro_block = ctetro.tetromino.shape[r][c];
                    let board_block = self.blocks[row_i as usize][ctetro.x + c];
                    if tetro_block != BlockState::Emp && board_block != BlockState::Emp {
                        proof {
                            assert(s[r as int][c as int] != BlockState::Emp && 0 <= y + r && b[y + r][x
                                + c] != BlockState::Emp);
                        }
                        return false;
                    }
                    c += 1;
                }
            }
            r += 1;
        }
        true
    }

    /// The fit-check on the falling piece translated by (`dx`, `dy`), with
    /// the column clamped at the left wall as the move itself would clamp it.
    pub fn can_move(&self, dx: i8, dy: i8) -> (ok: bool)
        requires
            self.wf(),
            -128 <= self.current_tetromino.x + dx <= 127,
            -128 <= self.current_tetromino.y + dy <= 127,
        ensures
            ok == fits(
                self.blocks_seq(),
                self.current_tetromino.tetromino.shape_seq(),
                moved_x(self.current_tetromino.x as int, dx as int),
                self.current_tetromino.y + dy,
            ),
    {
        let mut tetro = self.current_tetromino.clone();
        let x: i8 = tetro.x as i8 + dx;
        tetro.x = if x >= 0 {
            x as usize
        } else {
            0
        };
        tetro.y = tetro.y + dy;
        self.can_do(&tetro)
    }

    /// The fit-check on the falling piece's quarter-turn rotation in place.
    pub fn can_rotate(&self) -> (ok: bool)
        requires
            self.wf(),
        ensures
            ok == fits(
                self.blocks_seq(),
                rotated(self.current_tetromino.tetromino.shape_seq()),
                self.current_tetromino.x as int,
                self.current_tetromino.y as int,
            ),
    {
        let mut tetro = self.current_tetromino.clone();
        tetro.tetromino.rotate();
        self.can_do(&tetro)
    }

    /// The end-of-game signal: the falling piece's present placement fails
    /// the fit-check. Checked right after a commit promotes the queued piece.
    pub fn spawn_blocked(&self) -> (blocked: bool)
        requires
            self.wf(),
        ensures
            blocked == !fits(
                self.blocks_seq(),
                self.current_tetromino.tetromino.shape_seq(),
                self.current_tetromino.x as int,
                self.current_tetromino.y as int,
            ),
    {
        !self.can_do(&self.current_tetromino)
    }

    /// Move the falling piece one column right if the move fits; otherwise
    /// leave the state unchanged.
    pub fn tetromino_right(&mut self)
        requires
            old(self).wf(),
        ensures
            final(self).wf(),
            final(self).blocks == old(self).blocks,
            final(self).score == old(self).score,
            final(self).level == old(self).level,
            final(self).time_elapsed == old(self).time_elapsed,
            final(self).steps_elapsed == old(self).steps_elapsed,
            final(self).next_tetromino == old(self).next_tetromino,
            final(self).current_tetromino.tetromino == old(self).current_tetromino.tetromino,
            final(self).current_tetromino.y == old(self).current_tetromino.y,
            final(self).current_tetromino.x == if fits(
                old(self).blocks_seq(),
                old(self).current_tetromino.tetromino.shape_seq(),
                old(self).current_tetromino.x + 1,
                old(self).current_tetromino.y as int,
            ) {
                old(self).current_tetromino.x + 1
            } else {
                old(self).current_tetromino.x as int
            },
    {
        if self.can_move(1, 0) {
            self.current_tetromino.right();
        }
    }

    /// Move the falling piece one column left (clamped at the wall) if the
    /// move fits; otherwise leave the state unchanged.
    pub fn tetromino_left(&mut self)
        requires
            old(self).wf(),
        ensures
            final(self).wf(),
            final(self).blocks == old(self).blocks,
            final(self).score == old(self).score,
            final(self).level == old(self).level,
            final(self).time_elapsed == old(self).time_elapsed,
            final(self).steps_elapsed == old(self).steps_elapsed,
            final(self).next_tetromino == old(self).next_tetromino,
            final(self).current_tetromino.tetromino == old(self).current_tetromino.tetromino,
            final(self).current_tetromino.y == old(self).current_tetromino.y,
            final(self).current_tetromino.x == if fits(
                old(self).blocks_seq(),
                old(self).current_tetromino.tetromino.shape_seq(),
                moved_x(old(self).current_tetromino.x as int, -1),
                old(self).current_tetromino.y as int,
            ) {
                moved_x(old(self).current_tetromino.x as int, -1)
            } else {
                old(self).current_tetromino.x as int
            },
    {
        if self.can_move(-1, 0) {
            self.current_tetromino.left();
        }
    }

    /// Turn the falling piece a quarter turn counter-clockwise if the turned
    /// shape fits at the same anchor; otherwise leave the state unchanged.
    pub fn tetromino_rotate(&mut self)
        requires
            old(self).wf(),
        ensures
            final(self).wf(),
            final(self).blocks == old(self).blocks,
            final(self).score == old(self).score,
            final(self).level == old(self).level,
            final(self).time_elapsed == old(self).time_elapsed,
            final(self).steps_elapsed == old(self).steps_elapsed,
            final(self).next_tetromino == old(self).next_tetromino,
            final(self).current_tetromino.x == old(self).current_tetromino.x,
            final(self).current_tetromino.y == old(self).current_tetromino.y,
            if fits(
                old(self).blocks_seq(),
                rotated(old(self).current_tetromino.tetromino.shape_seq()),
                old(self).current_tetromino.x as int,
                old(self).current_tetromino.y as int,
            ) {
                &&& final(self).current_tetromino.tetromino.shape_seq()
                    == rotated(old(self).current_tetromino.tetromino.shape_seq())
                &&& final(self).current_tetromino.tetromino.colour
                    == old(self).current_tetromino.tetromino.colour
                &&& final(self).current_tetromino.tetromino.starting_pos_y
                    == old(self).current_tetromino.tetromino.starting_pos_y
                &&& final(self).current_tetromino.tetromino.starting_pos_x
                    == old(self).current_tetromino.tetromino.starting_pos_x
            } else {
                final(self).current_tetromino == old(self).current_tetromino
            },
    {
        if self.can_rotate() {
            self.current_tetromino.rotate();
        }
    }
}

impl GameState {
    fn clone_row(row: &Vec<BlockState>) -> (out: Vec<BlockState>)
        ensures
            out@ == row@,
    {
        let mut out: Vec<BlockState> = Vec::new();
        let mut j: usize = 0;
        while j < row.len()
            invariant
                j <= row@.len(),
                out@.len() == j,
                forall|b: int| 0 <= b < j ==> out@[b] == row@[b],
            decreases row@.len() - j,
        {
            out.push(row[j]);
            j += 1;
        }
        proof {
            assert(out@ =~= row@);
        }
        out
    }

    fn empty_blocks() -> (v: Vec<Vec<BlockState>>)
        ensures
            v@.len() == NUM_ROWS,
            forall|i: int| 0 <= i < NUM_ROWS ==> (#[trigger] v@[i])@ == empty_row(),
    {
        let mut v: Vec<Vec<BlockState>> = Vec::new();
        let mut i: usize = 0;
        while i < NUM_ROWS
            invariant
                i <= NUM_ROWS,
                v@.len() == i,
                forall|a: int| 0 <= a < i ==> (#[trigger] v@[a])@ == empty_row(),
            decreases NUM_ROWS - i,
        {
            let mut row: Vec<BlockState> = Vec::new();
            let mut j: usize = 0;
            while j < NUM_COLS
                invariant
                    j <= NUM_COLS,
                    row@.len() == j,
                    forall|b: int| 0 <= b < j ==> row@[b] == BlockState::Emp,
                decreases NUM_COLS - j,
            {
                row.push(BlockState::Emp);
                j += 1;
            }
            proof {
                assert(row@ =~= empty_row());
            }
            v.push(row);
            i += 1;
        }
        v
    }

    /// Write the falling piece's occupied cells into the board at its
    /// present anchor. Shape cells above the top of the board are skipped.
    pub fn commit(&mut self)
        requires
            old(self).wf(),
        ensures
            final(self).wf(),
            final(self).blocks_seq() == committed(
                old(self).blocks_seq(),
                old(self).current_tetromino.tetromino.shape_seq(),
                old(self).current_tetromino.x as int,
                old(self).current_tetromino.y as int,
            ),
            final(self).score == old(self).score,
            final(self).level == old(self).level,
            final(self).time_elapsed == old(self).time_elapsed,
            final(self).steps_elapsed == old(self).steps_elapsed,
            final(self).current_tetromino == old(self).current_tetromino,
            final(self).next_tetromino == old(self).next_tetromino,
    {
        let ghost b0 = self.blocks_seq();
        let ghost s = self.current_tetromino.tetromino.shape_seq();
        let ghost px = self.current_tetromino.x as int;
        let ghost py = self.current_tetromino.y as int;
        let t_height = self.current_tetromino.tetromino.shape.len();
        let t_width = self.current_tetromino.tetromino.shape[0].len();
        let start_x = self.current_tetromino.x;

        let mut r: usize = 0;
        while r < t_height
            invariant
                r <= t_height,
                self.current_tetromino == old(self).current_tetromino,
                self.next_tetromino == old(self).next_tetromino,
                self.score == old(self).score,
                self.level == old(self).level,
                self.time_elapsed == old(self).time_elapsed,
                self.steps_elapsed == old(self).steps_elapsed,
                s == self.current_tetromino.tetromino.shape_seq(),
                px == self.current_tetromino.x as int,
                py == self.current_tetromino.y as int,
                t_height == s.len(),
                t_width == s[0].len(),
                start_x as int == px,
                shape_wf(s),
                board_wf(b0),
                px + t_width <= NUM_COLS,
                py + t_height <= NUM_ROWS,
                board_wf(self.blocks_seq()),
                forall|i: int, j: int| #![trigger self.blocks_seq()[i][j]]
                    0 <= i < NUM_ROWS && 0 <= j < NUM_COLS ==> self.blocks_seq()[i][j] == (
                    if covers_partial(s, px, py, i, j, r as int, 0) {
                        s[i - py][j - px]
                    } else {
                        b0[i][j]
                    }),
            decreases t_height - r,
        {
            let row_i: i32 = self.current_tetromino.y as i32 + r as i32;
            if row_i >= 0 {
                let row_u = row_i as usize;
                let mut c: usize = 0;
                while c < t_width
                    invariant
                        c <= t_width,
                        r < t_height,
                        self.current_tetromino == old(self).current_tetromino,
                        self.next_tetromino == old(self).next_tetromino,
                        self.score == old(self).score,
                        self.level == old(self).level,
                        self.time_elapsed == old(self).time_elapsed,
                        self.steps_elapsed == old(self).steps_elapsed,
                        s == self.current_tetromino.tetromino.shape_seq(),
                        px == self.current_tetromino.x as int,
                        py == self.current_tetromino.y as int,
                        t_height == s.len(),
                        t_width == s[0].len(),
                        start_x as int == px,
                        shape_wf(s),
                        board_wf(b0),
                        px + t_width <= NUM_COLS,
                        py + t_height <= NUM_ROWS,
                        row_i == py + r,
                        0 <= row_i,
                        row_u == row_i,
                        row_u < NUM_ROWS,
                        board_wf(self.blocks_seq()),
                        forall|i: int, j: int| #![trigger self.blocks_seq()[i][j]]
                            0 <= i < NUM_ROWS && 0 <= j < NUM_COLS ==> self.blocks_seq()[i][j] == (
                            if covers_partial(s, px, py, i, j, r as int, c as int) {
                                s[i - py][j - px]
                            } else {
                                b0[i][j]
                            }),
                    decreases t_width - c,
                {
                    proof {
                        assert(self.current_tetromino.tetromino.shape@.len() == s.len());
                        assert(self.current_tetromino.tetromino.shape@[r as int]@ == s[r as int]);
                        assert(self.blocks_seq().len() == NUM_ROWS);
                        assert(self.blocks@.len() == NUM_ROWS);
                        assert(self.blocks_seq()[row_u as int] == self.blocks@[row_u as int]@);
                        assert(self.blocks_seq()[row_u as int].len() == NUM_COLS);
                    }
                    let tetro_bit = self.current_tetromino.tetromino.shape[r][c];
                    let ghost pre = self.blocks_seq();
                    if tetro_bit != BlockState::Emp {
                        self.blocks[row_u][start_x + c] = tetro_bit;
                        proof {
                            assert(self.blocks@[row_u as int]@ == pre[row_u as int].update(
                                px + c,
                                s[r as int][c as int],
                            ));
                            assert forall|i: int|
                                0 <= i < NUM_ROWS && i != row_u as int implies #[trigger] self.blocks_seq()[i]
                                == pre[i] by {
                                assert(self.blocks_seq()[i] == self.blocks@[i]@);
                            }
                            assert(self.blocks_seq()[row_u as int] == self.blocks@[row_u as int]@);
                        }
                    }
                    proof {
                        assert forall|i: int|
                            0 <= i < NUM_ROWS implies (#[trigger] self.blocks_seq()[i]).len()
                            == NUM_COLS by {
                            assert(self.blocks_seq()[i] == self.blocks@[i]@);
                            if i == row_u as int {
                                assert(self.blocks_seq()[i].len() == pre[i].len());
                            } else {
                                assert(self.blocks_seq()[i] == pre[i]);
                            }
                        }
                        assert(board_wf(self.blocks_seq()));
                        assert forall|i: int, j: int| #![trigger self.blocks_seq()[i][j]]
                            0 <= i < NUM_ROWS && 0 <= j < NUM_COLS implies self.blocks_seq()[i][j]
                            == (if covers_partial(s, px, py, i, j, r as int, c + 1) {
                                s[i - py][j - px]
                            } else {
                                b0[i][j]
                            }) by {
                            if i == row_u as int && j == px + c {
                            } else {
                                assert(self.blocks_seq()[i][j] == pre[i][j]);
                            }
                        }
                    }
                    c += 1;
                }
            }
            r += 1;
        }
        proof {
            let done = committed(b0, s, px, py);
            assert forall|i: int| 0 <= i < NUM_ROWS implies self.blocks_seq()[i] == done[i] by {
                assert forall|j: int| 0 <= j < NUM_COLS implies self.blocks_seq()[i][j] == done[i][j]
                    by {
                    assert(covers_partial(s, px, py, i, j, t_height as int, 0) == covers(
                        s,
                        px,
                        py,
                        i,
                        j,
                    ));
                }
                assert(self.blocks_seq()[i] =~= done[i]);
            }
            assert(self.blocks_seq() =~= done);
        }
    }

    /// One clearing pass, rebuilding the board from the bottom up: every
    /// full row is removed, the other rows collapse downward in order, and
    /// empty rows fill the top. Returns how many rows were removed.
    pub fn remove_lines(&mut self) -> (n: u8)
        requires
            old(self).wf(),
        ensures
            final(self).wf(),
            final(self).blocks_seq() == cleared(old(self).blocks_seq()),
            n as int == num_cleared(old(self).blocks_seq()),
            final(self).score == old(self).score,
            final(self).level == old(self).level,
            final(self).time_elapsed == old(self).time_elapsed,
            final(self).steps_elapsed == old(self).steps_elapsed,
            final(self).current_tetromino == old(self).current_tetromino,
            final(self).next_tetromino == old(self).next_tetromino,
    {
        let ghost b0 = self.blocks_seq();
        let mut new_blocks = Self::empty_blocks();
        let mut num_removed: u8 = 0;
        let mut copy_to: usize = NUM_ROWS;
        let mut ri: usize = NUM_ROWS;
        while ri > 0
            invariant
                ri <= NUM_ROWS,
                self.blocks_seq() == b0,
                board_wf(b0),
                copy_to as int == NUM_ROWS - compacted(
                    b0.subrange(ri as int, NUM_ROWS as int),
                ).len(),
                num_removed as int == (NUM_ROWS - ri) - compacted(
                    b0.subrange(ri as int, NUM_ROWS as int),
                ).len(),
                new_blocks@.len() == NUM_ROWS,
                forall|a: int| 0 <= a < copy_to ==> (#[trigger] new_blocks@[a])@ == empty_row(),
                forall|a: int|
                    copy_to <= a < NUM_ROWS ==> (#[trigger] new_blocks@[a])@ == compacted(
                        b0.subrange(ri as int, NUM_ROWS as int),
                    )[a - copy_to],
            decreases ri,
        {
            proof {
                lemma_compacted_len(b0.subrange(ri as int, NUM_ROWS as int));
            }
            ri -= 1;
            let ghost subpre = b0.subrange(ri as int, NUM_ROWS as int);
            let ghost subpost = b0.subrange(ri as int + 1, NUM_ROWS as int);
            proof {
                assert(subpre[0] == b0[ri as int]);
                assert(subpre.drop_first() =~= subpost);
            }
            let mut unfilled = false;
            let mut j: usize = 0;
            while j < NUM_COLS
                invariant
                    j <= NUM_COLS,
                    ri < NUM_ROWS,
                    self.blocks_seq() == b0,
                    board_wf(b0),
                    unfilled == exists|jj: int|
                        0 <= jj < j && b0[ri as int][jj] == BlockState::Emp,
                decreases NUM_COLS - j,
            {
                proof {
                    assert(self.blocks@[ri as int]@ == b0[ri as int]);
                }
                if self.blocks[ri][j] == BlockState::Emp {
                    unfilled = true;
                }
                j += 1;
            }
            proof {
                if !unfilled {
                    assert forall|jj: int|
                        0 <= jj < b0[ri as int].len() implies (#[trigger] b0[ri as int][jj])
                        != BlockState::Emp by {}
                }
                assert(unfilled == !row_full(b0[ri as int]));
            }
            if unfilled {
                copy_to -= 1;
                let row_copy = Self::clone_row(&self.blocks[ri]);
                new_blocks[copy_to] = row_copy;
                proof {
                    assert(compacted(subpre) == seq![b0[ri as int]] + compacted(subpost));
                }
            } else {
                num_removed += 1;
                proof {
                    assert(compacted(subpre) == compacted(subpost));
                }
            }
        }
        proof {
            assert(b0.subrange(0, NUM_ROWS as int) =~= b0);
            lemma_compacted_len(b0);
            lemma_compacted_rows(b0, NUM_COLS as int);
        }
        self.blocks = new_blocks;
        proof {
            let fin = cleared(b0);
            assert forall|i: int| 0 <= i < NUM_ROWS implies self.blocks_seq()[i] == fin[i] by {
                if i < NUM_ROWS - compacted(b0).len() {
                    assert(fin[i] == empty_row());
                } else {
                    assert(fin[i] == compacted(b0)[i - (NUM_ROWS - compacted(b0).len())]);
                }
            }
            assert(self.blocks_seq() =~= fin);
            assert(board_wf(self.blocks_seq()));
        }
        num_removed
    }

    /// Recompute the level from the score: one level per `SCORE_PER_LEVEL`
    /// points, clamped at `MAX_LEVEL`.
    pub fn update_level(&mut self)
        ensures
            final(self).level == level_of(old(self).score),
            final(self).blocks == old(self).blocks,
            final(self).score == old(self).score,
            final(self).time_elapsed == old(self).time_elapsed,
            final(self).steps_elapsed == old(self).steps_elapsed,
            final(self).current_tetromino == old(self).current_tetromino,
            final(self).next_tetromino == old(self).next_tetromino,
    {
        let l: u128 = self.score / SCORE_PER_LEVEL;
        self.level = if l > MAX_LEVEL as u128 {
            MAX_LEVEL
        } else {
            l as u8
        };
    }

    /// Add one point per removed row to the score, then rederive the level.
    pub fn update_score(&mut self, num_removed: u8)
        requires
            old(self).wf(),
            old(self).score + num_removed <= u128::MAX,
        ensures
            final(self).wf(),
            final(self).score == old(self).score + num_removed,
            final(self).level == level_of(final(self).score),
            final(self).blocks == old(self).blocks,
            final(self).time_elapsed == old(self).time_elapsed,
            final(self).steps_elapsed == old(self).steps_elapsed,
            final(self).current_tetromino == old(self).current_tetromino,
            final(self).next_tetromino == old(self).next_tetromino,
    {
        if num_removed > 0 {
            self.score = self.score + num_removed as u128;
        }
        self.update_level();
    }

    /// A gravity or soft-drop step: the piece descends one row if that fits;
    /// otherwise it is committed where it rests, the queued piece becomes the
    /// falling piece, and a fresh spawn is queued.
    pub fn tetromino_down(&mut self)
        requires
            old(self).wf(),
        ensures
            final(self).wf(),
            final(self).score == old(self).score,
            final(self).level == old(self).level,
            final(self).time_elapsed == old(self).time_elapsed,
            final(self).steps_elapsed == old(self).steps_elapsed,
            if fits(
                old(self).blocks_seq(),
                old(self).current_tetromino.tetromino.shape_seq(),
                old(self).current_tetromino.x as int,
                old(self).current_tetromino.y + 1,
            ) {
                &&& final(self).blocks == old(self).blocks
                &&& final(self).current_tetromino.tetromino == old(
                    self,
                ).current_tetromino.tetromino
                &&& final(self).current_tetromino.x == old(self).current_tetromino.x
                &&& final(self).current_tetromino.y == old(self).current_tetromino.y + 1
                &&& final(self).next_tetromino == old(self).next_tetromino
            } else {
                &&& final(self).blocks_seq() == committed(
                    old(self).blocks_seq(),
                    old(self).current_tetromino.tetromino.shape_seq(),
                    old(self).current_tetromino.x as int,
                    old(self).current_tetromino.y as int,
                )
                &&& same_piece(final(self).current_tetromino, old(self).next_tetromino)
                &&& is_spawn(final(self).next_tetromino)
            },
    {
        proof {
            lemma_spawn_piece(self.next_tetromino);
        }
        if self.can_move(0, 1) {
            self.current_tetromino.down();
        } else {
            self.commit();
            self.current_tetromino = self.next_tetromino.clone();
            self.next_tetromino = CurrentTetromino::next_one();
        }
    }

    /// One gravity step followed by a clearing pass and the score update.
    pub fn update_blocks(&mut self)
        requires
            old(self).wf(),
            old(self).score + NUM_ROWS <= u128::MAX,
        ensures
            final(self).wf(),
            gravity_stepped(*old(self), *final(self)),
            final(self).time_elapsed == old(self).time_elapsed,
            final(self).steps_elapsed == old(self).steps_elapsed,
    {
        proof {
            lemma_compacted_len(self.blocks_seq());
        }
        self.tetromino_down();
        proof {
            lemma_compacted_len(self.blocks_seq());
        }
        let n = self.remove_lines();
        self.update_score(n);
    }

    /// Advance the clock one tick; once the counter runs past the cadence
    /// for the present level, perform one gravity step and restart it.
    pub fn step_time(&mut self) -> (stepped: bool)
        requires
            old(self).wf(),
            old(self).steps_elapsed < u128::MAX,
            old(self).score + NUM_ROWS <= u128::MAX,
        ensures
            final(self).wf(),
            stepped == (old(self).time_elapsed > speed_of(old(self).level)),
            final(self).steps_elapsed == old(self).steps_elapsed + 1,
            if stepped {
                &&& gravity_stepped(*old(self), *final(self))
                &&& final(self).time_elapsed == 1
            } else {
                &&& final(self).blocks == old(self).blocks
                &&& final(self).score == old(self).score
                &&& final(self).level == old(self).level
                &&& final(self).current_tetromino == old(self).current_tetromino
                &&& final(self).next_tetromino == old(self).next_tetromino
                &&& final(self).time_elapsed == old(self).time_elapsed + 1
            },
    {
        let speed = self.current_speed();
        let mut stepped = false;
        if self.time_elapsed > speed {
            self.update_blocks();
            self.time_elapsed = 0;
            stepped = true;
        }
        self.time_elapsed = self.time_elapsed + 1;
        self.steps_elapsed = self.steps_elapsed + 1;
        stepped
    }
}

impl Default for GameState {
    /// A fresh game: an empty board, zero counters, and two fresh spawns.
    fn default() -> (g: Self)
        ensures
            g.wf(),
            g.blocks_seq() == Seq::new(NUM_ROWS as nat, |i: int| empty_row()),
            g.score == 0,
            g.level == 0,
            g.time_elapsed == 0,
            g.steps_elapsed == 0,
            is_spawn(g.current_tetromino),
            is_spawn(g.next_tetromino),
    {
        let g = GameState {
            blocks: GameState::empty_blocks(),
            score: 0,
            level: 0,
            time_elapsed: 0,
            steps_elapsed: 0,
            current_tetromino: CurrentTetromino::next_one(),
            next_tetromino: CurrentTetromino::next_one(),
        };
        proof {
            lemma_spawn_piece(g.current_tetromino);
            assert(g.blocks_seq() =~= Seq::new(NUM_ROWS as nat, |i: int| empty_row()));
        }
        g
    }
}


/// Bounds invariant: the fit-check rejects any anchor that would map an
/// occupied shape cell to a column outside the board or to a row below its
/// floor.
pub proof fn lemma_fits_bounds(
    b: Seq<Seq<BlockState>>,
    shape: Seq<Seq<BlockState>>,
    x: int,
    y: int,
    r: int,
    c: int,
)
    requires
        0 <= r < shape.len(),
        0 <= c < shape[0].len(),
        shape[r][c] != BlockState::Emp,
        x + c < 0 || x + c >= NUM_COLS || y + r >= NUM_ROWS,
    ensures
        !fits(b, shape, x, y),
{
}

/// Spawn-blocked detection: a placement with an occupied shape cell on an
/// occupied board cell fails the fit-check, so `spawn_blocked` reports it
/// for the piece that was just promoted there.
pub proof fn lemma_overlap_blocks(
    b: Seq<Seq<BlockState>>,
    shape: Seq<Seq<BlockState>>,
    x: int,
    y: int,
    r: int,
    c: int,
)
    requires
        0 <= r < shape.len(),
        0 <= c < shape[0].len(),
        shape[r][c] != BlockState::Emp,
        0 <= y + r,
        b[y + r][x + c] != BlockState::Emp,
    ensures
        !fits(b, shape, x, y),
{
}

/// Occupied cells in one row.
pub open spec fn count_row(row: Seq<BlockState>) -> int
    decreases row.len(),
{
    if row.len() == 0 {
        0
    } else {
        count_row(row.drop_last()) + (if row.last() != BlockState::Emp {
            1int
        } else {
            0int
        })
    }
}

/// Occupied cells in a whole grid.
pub open spec fn count_grid(g: Seq<Seq<BlockState>>) -> int
    decreases g.len(),
{
    if g.len() == 0 {
        0
    } else {
        count_grid(g.drop_last()) + count_row(g.last())
    }
}

/// One board row after a shape row lands on it.
spec fn merged_row(orow: Seq<BlockState>, srow: Seq<BlockState>, x: int) -> Seq<BlockState> {
    Seq::new(
        orow.len(),
        |j: int|
            if 0 <= j - x < srow.len() && srow[j - x] != BlockState::Emp {
                srow[j - x]
            } else {
                orow[j]
            },
    )
}

/// How much of the shape's span a prefix of length `k` has passed.
spec fn span_upto(k: int, x: int, w: int) -> int {
    if k <= x {
        0
    } else if k - x >= w {
        w
    } else {
        k - x
    }
}

proof fn lemma_merged_row_count_upto(orow: Seq<BlockState>, srow: Seq<BlockState>, x: int, k: int)
    requires
        0 <= x,
        x + srow.len() <= orow.len(),
        forall|c: int|
            0 <= c < srow.len() && #[trigger] srow[c] != BlockState::Emp ==> orow[x + c]
                == BlockState::Emp,
        0 <= k <= orow.len(),
    ensures
        count_row(merged_row(orow, srow, x).take(k)) == count_row(orow.take(k)) + count_row(
            srow.take(span_upto(k, x, srow.len() as int)),
        ),
    decreases k,
{
    let m = merged_row(orow, srow, x);
    if k == 0 {
        assert(m.take(0) =~= Seq::<BlockState>::empty());
        assert(orow.take(0) =~= Seq::<BlockState>::empty());
        assert(srow.take(0) =~= Seq::<BlockState>::empty());
    } else {
        lemma_merged_row_count_upto(orow, srow, x, k - 1);
        assert(m.take(k).drop_last() =~= m.take(k - 1));
        assert(m.take(k).last() == m[k - 1]);
        assert(orow.take(k).drop_last() =~= orow.take(k - 1));
        assert(orow.take(k).last() == orow[k - 1]);
        let sp = span_upto(k, x, srow.len() as int);
        let sp0 = span_upto(k - 1, x, srow.len() as int);
        if x <= k - 1 < x + srow.len() {
            assert(sp == sp0 + 1);
            assert(srow.take(sp).drop_last() =~= srow.take(sp0));
            assert(srow.take(sp).last() == srow[k - 1 - x]);
        } else {
            assert(sp == sp0);
        }
    }
}

/// One board row's occupied-cell count after a disjoint shape row lands on
/// it: the counts add.
proof fn lemma_merged_row_count(orow: Seq<BlockState>, srow: Seq<BlockState>, x: int)
    requires
        0 <= x,
        x + srow.len() <= orow.len(),
        forall|c: int|
            0 <= c < srow.len() && #[trigger] srow[c] != BlockState::Emp ==> orow[x + c]
                == BlockState::Emp,
    ensures
        count_row(merged_row(orow, srow, x)) == count_row(orow) + count_row(srow),
{
    lemma_merged_row_count_upto(orow, srow, x, orow.len() as int);
    let m = merged_row(orow, srow, x);
    assert(m.take(orow.len() as int) =~= m);
    assert(orow.take(orow.len() as int) =~= orow);
    assert(srow.take(span_upto(orow.len() as int, x, srow.len() as int)) =~= srow);
}

proof fn lemma_commit_count_upto(
    b: Seq<Seq<BlockState>>,
    shape: Seq<Seq<BlockState>>,
    x: int,
    y: int,
    k: int,
)
    requires
        board_wf(b),
        shape_wf(shape),
        fits(b, shape, x, y),
        0 <= y,
        0 <= k <= b.len(),
    ensures
        count_grid(committed(b, shape, x, y).take(k)) == count_grid(b.take(k)) + count_grid(
            shape.take(span_upto(k, y, shape.len() as int)),
        ),
    decreases k,
{
    let g = committed(b, shape, x, y);
    if k == 0 {
        assert(g.take(0) =~= Seq::<Seq<BlockState>>::empty());
        assert(b.take(0) =~= Seq::<Seq<BlockState>>::empty());
        assert(shape.take(0) =~= Seq::<Seq<BlockState>>::empty());
    } else {
        lemma_commit_count_upto(b, shape, x, y, k - 1);
        assert(g.take(k).drop_last() =~= g.take(k - 1));
        assert(g.take(k).last() == g[k - 1]);
        assert(b.take(k).drop_last() =~= b.take(k - 1));
        assert(b.take(k).last() == b[k - 1]);
        let i = k - 1;
        let sp = span_upto(k, y, shape.len() as int);
        let sp0 = span_upto(k - 1, y, shape.len() as int);
        if y <= i < y + shape.len() {
            assert(sp == sp0 + 1);
            assert(shape.take(sp).drop_last() =~= shape.take(sp0));
            assert(shape.take(sp).last() == shape[i - y]);
            let srow = shape[i - y];
            assert(srow.len() == shape[0].len());
            assert forall|c: int|
                0 <= c < srow.len() && #[trigger] srow[c] != BlockState::Emp implies b[i][x + c]
                == BlockState::Emp by {
                assert(shape[i - y][c] != BlockState::Emp);
            }
            assert(g[i] =~= merged_row(b[i], srow, x));
            lemma_merged_row_count(b[i], srow, x);
        } else {
            assert(sp == sp0);
            assert(g[i] =~= b[i]);
        }
    }
}

/// Commit adds exactly the piece's occupied-cell count to the board's
/// occupied-cell count, provided the placement fits (so nothing overlaps)
/// and the whole shape sits at or below the top of the board.
pub proof fn lemma_commit_block_count(
    b: Seq<Seq<BlockState>>,
    shape: Seq<Seq<BlockState>>,
    x: int,
    y: int,
)
    requires
        board_wf(b),
        shape_wf(shape),
        fits(b, shape, x, y),
        0 <= y,
    ensures
        count_grid(committed(b, shape, x, y)) == count_grid(b) + count_grid(shape),
{
    lemma_commit_count_upto(b, shape, x, y, b.len() as int);
    let g = committed(b, shape, x, y);
    assert(g.take(b.len() as int) =~= g);
    assert(b.take(b.len() as int) =~= b);
    assert(shape.take(span_upto(b.len() as int, y, shape.len() as int)) =~= shape);
}

proof fn lemma_compacted_no_full(s: Seq<Seq<BlockState>>)
    requires
        forall|i: int| 0 <= i < s.len() ==> !row_full(#[trigger] s[i]),
    ensures
        compacted(s) == s,
    decreases s.len(),
{
    if s.len() > 0 {
        assert forall|i: int| 0 <= i < s.drop_first().len() implies !row_full(
            #[trigger] s.drop_first()[i],
        ) by {
            assert(s.drop_first()[i] == s[i + 1]);
        }
        lemma_compacted_no_full(s.drop_first());
        assert(compacted(s) =~= s);
    }
}

proof fn lemma_compacted_single_full(b: Seq<Seq<BlockState>>, k: int)
    requires
        0 <= k < b.len(),
        row_full(b[k]),
        forall|i: int| 0 <= i < b.len() && i != k ==> !row_full(#[trigger] b[i]),
    ensures
        compacted(b) == b.subrange(0, k) + b.subrange(k + 1, b.len() as int),
    decreases b.len(),
{
    if k == 0 {
        assert forall|i: int| 0 <= i < b.drop_first().len() implies !row_full(
            #[trigger] b.drop_first()[i],
        ) by {
            assert(b.drop_first()[i] == b[i + 1]);
        }
        lemma_compacted_no_full(b.drop_first());
        assert(compacted(b) == b.drop_first());
        assert(b.drop_first() =~= b.subrange(0, 0) + b.subrange(1, b.len() as int));
    } else {
        assert(!row_full(b[0]));
        assert(b.drop_first()[k - 1] == b[k]);
        assert forall|i: int|
            0 <= i < b.drop_first().len() && i != k - 1 implies !row_full(
            #[trigger] b.drop_first()[i],
        ) by {
            assert(b.drop_first()[i] == b[i + 1]);
        }
        lemma_compacted_single_full(b.drop_first(), k - 1);
        assert(b.drop_first().subrange(0, k - 1) =~= b.subrange(1, k));
        assert(b.drop_first().subrange(k, b.len() - 1) =~= b.subrange(k + 1, b.len() as int));
        assert(compacted(b) =~= b.subrange(0, k) + b.subrange(k + 1, b.len() as int));
    }
}

/// Line-clear correctness: on a board whose only full row sits at index `k`,
/// one clearing pass removes exactly that row: every row below keeps its
/// place, every row above shifts down by one, a single empty row enters at
/// the top, and the pass reports one removed row.
pub proof fn lemma_single_full_row(b: Seq<Seq<BlockState>>, k: int)
    requires
        board_wf(b),
        0 <= k < b.len(),
        row_full(b[k]),
        forall|i: int| 0 <= i < b.len() && i != k ==> !row_full(#[trigger] b[i]),
    ensures
        num_cleared(b) == 1,
        cleared(b) == seq![empty_row()] + b.subrange(0, k) + b.subrange(k + 1, b.len() as int),
        forall|i: int| k < i < b.len() ==> #[trigger] cleared(b)[i] == b[i],
        forall|i: int| 1 <= i <= k ==> #[trigger] cleared(b)[i] == b[i - 1],
        cleared(b)[0] == empty_row(),
{
    lemma_compacted_single_full(b, k);
    assert(compacted(b).len() == b.len() - 1);
    assert(Seq::new(1nat, |i: int| empty_row()) =~= seq![empty_row()]);
    assert(cleared(b) =~= seq![empty_row()] + b.subrange(0, k) + b.subrange(k + 1, b.len() as int));
    assert forall|i: int| k < i < b.len() implies #[trigger] cleared(b)[i] == b[i] by {
        assert(cleared(b)[i] == b.subrange(k + 1, b.len() as int)[i - k - 1]);
    }
    assert forall|i: int| 1 <= i <= k implies #[trigger] cleared(b)[i] == b[i - 1] by {
        if i <= k {
            assert(cleared(b)[i] == b.subrange(0, k)[i - 1]);
        }
    }
}

} // verus!
