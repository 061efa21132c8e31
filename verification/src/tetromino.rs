use vstd::prelude::*;

use crate::colours;
use crate::colours::Colour;
use crate::game_state::NUM_COLS;

verus! {

/// The state of one board cell: empty, or filled by a block of the piece
/// kind that produced it.
#[derive(Clone, Copy, Debug, PartialEq, Eq, Structural)]
pub enum BlockState {
    Emp,
    Arr,
    Ell,
    Eye,
    Ess,
    Ohh,
    Tee,
    Zee,
}

/// An immutable shape template: a bounding box of cells, the colour its
/// blocks are drawn with, and the canonical spawn offsets.
pub struct Tetromino {
    /// Colour associated with blocks of this tetromino.
    pub colour: Colour,
    /// A bounding box of blocks that has the shape filled in with coloured blocks.
    pub shape: Vec<Vec<BlockState>>,
    /// Vertical spawn offset: the bottom of the shape starts just above the
    /// visible board, so this is the negated shape height.
    pub starting_pos_y: i8,
    /// Horizontal spawn offset, centering the shape over the columns.
    pub starting_pos_x: usize,
}

/// The piece currently under control: a shape in its current orientation and
/// the board coordinates of its bounding box's top-left corner.
pub struct CurrentTetromino {
    pub tetromino: Tetromino,
    /// Column of the bounding box's left edge.
    pub x: usize,
    /// Row of the bounding box's top edge; negative while the piece is still
    /// above the visible board.
    pub y: i8,
}

impl Tetromino {
    /// The shape as a mathematical grid of cells.
    pub open spec fn shape_seq(&self) -> Seq<Seq<BlockState>> {
        self.shape@.map_values(|row: Vec<BlockState>| row@)
    }
}

/// Every row of the grid has the same width as row 0.
pub open spec fn rect(s: Seq<Seq<BlockState>>) -> bool {
    forall|i: int| 0 <= i < s.len() ==> (#[trigger] s[i]).len() == s[0].len()
}

/// A usable shape grid: rectangular and between one and four cells a side.
pub open spec fn shape_wf(s: Seq<Seq<BlockState>>) -> bool {
    &&& 1 <= s.len() <= 4
    &&& 1 <= s[0].len() <= 4
    &&& rect(s)
}

/// The quarter-turn (counter-clockwise) transform: an R x C grid becomes a
/// C x R grid with `new[C-1-c][r] == old[r][c]`.
pub open spec fn rotated(s: Seq<Seq<BlockState>>) -> Seq<Seq<BlockState>> {
    Seq::new(s[0].len(), |i: int| Seq::new(s.len(), |j: int| s[j][s[0].len() - 1 - i]))
}

/// Two templates carry the same colour, shape grid and spawn offsets.
pub open spec fn same_template(a: Tetromino, b: Tetromino) -> bool {
    &&& a.colour == b.colour
    &&& a.shape_seq() == b.shape_seq()
    &&& a.starting_pos_y == b.starting_pos_y
    &&& a.starting_pos_x == b.starting_pos_x
}

/// Two active pieces carry the same template and the same anchor.
pub open spec fn same_piece(a: CurrentTetromino, b: CurrentTetromino) -> bool {
    &&& same_template(a.tetromino, b.tetromino)
    &&& a.x == b.x
    &&& a.y == b.y
}

pub open spec fn arr_shape() -> Seq<Seq<BlockState>> {
    seq![
        seq![BlockState::Arr, BlockState::Arr],
        seq![BlockState::Arr, BlockState::Emp],
        seq![BlockState::Arr, BlockState::Emp],
    ]
}

pub open spec fn ell_shape() -> Seq<Seq<BlockState>> {
    seq![
        seq![BlockState::Ell, BlockState::Emp],
        seq![BlockState::Ell, BlockState::Emp],
        seq![BlockState::Ell, BlockState::Ell],
    ]
}

pub open spec fn ess_shape() -> Seq<Seq<BlockState>> {
    seq![
        seq![BlockState::Emp, BlockState::Ess, BlockState::Ess],
        seq![BlockState::Ess, BlockState::Ess, BlockState::Emp],
    ]
}

pub open spec fn eye_shape() -> Seq<Seq<BlockState>> {
    seq![
        seq![BlockState::Eye],
        seq![BlockState::Eye],
        seq![BlockState::Eye],
        seq![BlockState::Eye],
    ]
}

pub open spec fn ohh_shape() -> Seq<Seq<BlockState>> {
    seq![
        seq![BlockState::Ohh, BlockState::Ohh],
        seq![BlockState::Ohh, BlockState::Ohh],
    ]
}

pub open spec fn tee_shape() -> Seq<Seq<BlockState>> {
    seq![
        seq![BlockState::Emp, BlockState::Tee, BlockState::Emp],
        seq![BlockState::Tee, BlockState::Tee, BlockState::Tee],
    ]
}

pub open spec fn zee_shape() -> Seq<Seq<BlockState>> {
    seq![
        seq![BlockState::Zee, BlockState::Zee, BlockState::Emp],
        seq![BlockState::Emp, BlockState::Zee, BlockState::Zee],
    ]
}

pub open spec fn emp_shape() -> Seq<Seq<BlockState>> {
    seq![Seq::<BlockState>::empty()]
}

/// The canonical shape grid of one piece kind.
pub open spec fn template_shape(kind: BlockState) -> Seq<Seq<BlockState>> {
    match kind {
        BlockState::Arr => arr_shape(),
        BlockState::Ell => ell_shape(),
        BlockState::Ess => ess_shape(),
        BlockState::Eye => eye_shape(),
        BlockState::Ohh => ohh_shape(),
        BlockState::Tee => tee_shape(),
        BlockState::Zee => zee_shape(),
        BlockState::Emp => emp_shape(),
    }
}

/// The colour tag of one piece kind.
pub open spec fn template_colour(kind: BlockState) -> Colour {
    match kind {
        BlockState::Arr => colours::rgb(0xD61355),
        BlockState::Ell => colours::rgb(0xB99B6B),
        BlockState::Ess => colours::rgb(0xA61F69),
        BlockState::Eye => colours::rgb(0xA084DC),
        BlockState::Ohh => colours::rgb(0x362FD9),
        BlockState::Tee => colours::rgb(0x7B8FA1),
        BlockState::Zee => colours::rgb(0xBFDB38),
        BlockState::Emp => colours::rgb(0xBFDB38),
    }
}

/// The canonical spawn row of one piece kind: its shape height negated, so
/// the piece starts just above the visible board.
pub open spec fn template_start_y(kind: BlockState) -> int {
    match kind {
        BlockState::Arr => -3,
        BlockState::Ell => -3,
        BlockState::Ess => -2,
        BlockState::Eye => -4,
        BlockState::Ohh => -2,
        BlockState::Tee => -2,
        BlockState::Zee => -2,
        BlockState::Emp => 0,
    }
}

/// The canonical spawn column of one piece kind, centering it.
pub open spec fn template_start_x(kind: BlockState) -> int {
    match kind {
        BlockState::Arr => 5,
        BlockState::Ell => 5,
        BlockState::Ess => 4,
        BlockState::Eye => 5,
        BlockState::Ohh => 5,
        BlockState::Tee => 4,
        BlockState::Zee => 4,
        BlockState::Emp => 0,
    }
}

/// The active piece is a freshly instantiated template of the given kind,
/// placed at its canonical spawn anchor.
pub open spec fn matches_template(p: CurrentTetromino, kind: BlockState) -> bool {
    &&& p.tetromino.shape_seq() == template_shape(kind)
    &&& p.tetromino.colour == template_colour(kind)
    &&& p.tetromino.starting_pos_y as int == template_start_y(kind)
    &&& p.tetromino.starting_pos_x as int == template_start_x(kind)
    &&& p.x as int == template_start_x(kind)
    &&& p.y as int == template_start_y(kind)
}

/// The active piece is one of the seven kinds at its canonical spawn anchor.
pub open spec fn is_spawn(p: CurrentTetromino) -> bool {
    exists|kind: BlockState| kind != BlockState::Emp && matches_template(p, kind)
}

impl Clone for Tetromino {
    /// The clone carries the same colour, shape grid and spawn offsets.
    fn clone(&self) -> (t: Self)
        ensures
            same_template(t, *self),
    {
        let mut shape: Vec<Vec<BlockState>> = Vec::new();
        let mut i: usize = 0;
        while i < self.shape.len()
            invariant
                i <= self.shape@.len(),
                shape@.len() == i,
                forall|a: int| 0 <= a < i ==> (#[trigger] shape@[a])@ == self.shape@[a]@,
            decreases self.shape@.len() - i,
        {
            let mut row: Vec<BlockState> = Vec::new();
            let mut j: usize = 0;
            while j < self.shape[i].len()
                invariant
                    i < self.shape@.len(),
                    j <= self.shape@[i as int]@.len(),
                    row@.len() == j,
                    forall|b: int| 0 <= b < j ==> row@[b] == self.shape@[i as int]@[b],
                decreases self.shape@[i as int]@.len() - j,
            {
                row.push(self.shape[i][j]);
                j += 1;
            }
            proof {
                assert(row@ =~= self.shape@[i as int]@);
            }
            shape.push(row);
            i += 1;
        }
        let t = Tetromino {
            colour: self.colour,
            shape,
            starting_pos_y: self.starting_pos_y,
            starting_pos_x: self.starting_pos_x,
        };
        proof {
            assert(t.shape_seq() =~= self.shape_seq());
        }
        t
    }
}

impl Clone for CurrentTetromino {
    /// The clone carries the same template and the same anchor.
    fn clone(&self) -> (p: Self)
        ensures
            same_piece(p, *self),
    {
        CurrentTetromino { tetromino: self.tetromino.clone(), x: self.x, y: self.y }
    }
}

/// Relies on random_number::random_ranged: a draw from the range `..limit`
/// stays below `limit`; with an unbounded start bound and a positive
/// exclusive end bound the call returns normally.
#[verifier::external_body]
fn random_index_below(limit: usize) -> (r: usize)
    requires
        0 < limit,
    ensures
        r < limit,
{
    random_number::random_ranged(..limit)
}

impl CurrentTetromino {
    /// Draw one of the seven kinds uniformly at random and instantiate it at
    /// its canonical spawn anchor.
    pub fn next_one() -> (p: CurrentTetromino)
        ensures
            is_spawn(p),
    {
        let idx = random_index_below(7);
        let kind = if idx == 0 {
            BlockState::Arr
        } else if idx == 1 {
            BlockState::Ell
        } else if idx == 2 {
            BlockState::Ess
        } else if idx == 3 {
            BlockState::Eye
        } else if idx == 4 {
            BlockState::Ohh
        } else if idx == 5 {
            BlockState::Tee
        } else {
            BlockState::Zee
        };
        let tetro = Tetromino::shape_for(kind);
        let p = tetro.into_current();
        proof {
            assert(matches_template(p, kind));
        }
        p
    }

    /// Move the piece one row down.
    pub fn down(&mut self)
        requires
            old(self).y < i8::MAX,
        ensures
            final(self).tetromino == old(self).tetromino,
            final(self).x == old(self).x,
            final(self).y == old(self).y + 1,
    {
        self.y = self.y + 1;
    }

    /// Move the piece one column to the right.
    pub fn right(&mut self)
        requires
            old(self).x < usize::MAX,
        ensures
            final(self).tetromino == old(self).tetromino,
            final(self).x == old(self).x + 1,
            final(self).y == old(self).y,
    {
        self.x = self.x + 1;
    }

    /// Move the piece one column to the left, stopping at the wall.
    pub fn left(&mut self)
        requires
            old(self).x <= 127,
        ensures
            final(self).tetromino == old(self).tetromino,
            final(self).x == if old(self).x > 0 { old(self).x - 1 } else { 0 },
            final(self).y == old(self).y,
    {
        let newx: i8 = self.x as i8 - 1;
        self.x = if newx >= 0 {
            newx as usize
        } else {
            0
        };
    }

    /// Turn the piece a quarter turn counter-clockwise in place.
    pub fn rotate(&mut self)
        requires
            shape_wf(old(self).tetromino.shape_seq()),
        ensures
            final(self).tetromino.shape_seq() == rotated(old(self).tetromino.shape_seq()),
            shape_wf(final(self).tetromino.shape_seq()),
            final(self).tetromino.colour == old(self).tetromino.colour,
            final(self).tetromino.starting_pos_y == old(self).tetromino.starting_pos_y,
            final(self).tetromino.starting_pos_x == old(self).tetromino.starting_pos_x,
            final(self).x == old(self).x,
            final(self).y == old(self).y,
    {
        self.tetromino.rotate();
    }
}

impl Tetromino {
    /// The catalog lookup: the template for one piece kind.
    pub fn shape_for(kind: BlockState) -> (t: Self)
        ensures
            t.shape_seq() == template_shape(kind),
            t.colour == template_colour(kind),
            t.starting_pos_y as int == template_start_y(kind),
            t.starting_pos_x as int == template_start_x(kind),
    {
        match kind {
            BlockState::Arr => Tetromino::arr(),
            BlockState::Ell => Tetromino::ell(),
            BlockState::Ess => Tetromino::ess(),
            BlockState::Eye => Tetromino::eye(),
            BlockState::Ohh => Tetromino::ohh(),
            BlockState::Tee => Tetromino::tee(),
            BlockState::Zee => Tetromino::zee(),
            BlockState::Emp => Tetromino::emp(),
        }
    }

    /// Place this template at its canonical spawn anchor.
    pub fn into_current(self) -> (p: CurrentTetromino)
        ensures
            p.tetromino == self,
            p.x == self.starting_pos_x,
            p.y == self.starting_pos_y,
    {
        CurrentTetromino { x: self.starting_pos_x, y: self.starting_pos_y, tetromino: self }
    }

    /// A quarter-turn (counter-clockwise) rotation of the tetromino, as a
    /// freshly built grid.
    pub fn rotate(&mut self)
        requires
            shape_wf(old(self).shape_seq()),
        ensures
            final(self).shape_seq() == rotated(old(self).shape_seq()),
            shape_wf(final(self).shape_seq()),
            final(self).colour == old(self).colour,
            final(self).starting_pos_y == old(self).starting_pos_y,
            final(self).starting_pos_x == old(self).starting_pos_x,
    {
        let ghost s = self.shape_seq();
        let height = self.shape.len();
        let width = self.shape[0].len();
        let mut new_shape: Vec<Vec<BlockState>> = Vec::new();
        let mut i: usize = 0;
        while i < width
            invariant
                i <= width,
                height == s.len(),
                width == s[0].len(),
                shape_wf(s),
                self.shape_seq() == s,
                new_shape@.len() == i,
                forall|a: int| 0 <= a < i ==> (#[trigger] new_shape@[a])@ == rotated(s)[a],
            decreases width - i,
        {
            let mut row: Vec<BlockState> = Vec::new();
            let mut j: usize = 0;
            while j < height
                invariant
                    j <= height,
                    i < width,
                    height == s.len(),
                    width == s[0].len(),
                    shape_wf(s),
                    self.shape_seq() == s,
                    row@.len() == j,
                    forall|b: int| 0 <= b < j ==> row@[b] == s[b][width - 1 - i],
                decreases height - j,
            {
                proof {
                    assert(self.shape@.len() == s.len());
                    assert(self.shape@[j as int]@ == s[j as int]);
                }
                let cell = self.shape[j][width - 1 - i];
                row.push(cell);
                j += 1;
            }
            proof {
                assert(row@ =~= rotated(s)[i as int]);
            }
            new_shape.push(row);
            i += 1;
        }
        self.shape = new_shape;
        proof {
            assert(self.shape_seq() =~= rotated(s));
        }
    }

    ///
    /// xx
    /// x
    /// x
    ///
    pub fn arr() -> (t: Self)
        ensures
            t.shape_seq() == arr_shape(),
            t.colour == colours::rgb(0xD61355),
            t.starting_pos_y == -3,
            t.starting_pos_x == 5,
    {
        let t = Tetromino {
            colour: colours::red(),
            shape: vec![
                vec![BlockState::Arr, BlockState::Arr],
                vec![BlockState::Arr, BlockState::Emp],
                vec![BlockState::Arr, BlockState::Emp],
            ],
            starting_pos_y: -3,
            starting_pos_x: (NUM_COLS - 2) / 2,
        };
        proof {
            assert(t.shape_seq() =~~= arr_shape());
        }
        t
    }

    ///
    /// x
    /// x
    /// xx
    ///
    pub fn ell() -> (t: Self)
        ensures
            t.shape_seq() == ell_shape(),
            t.colour == colours::rgb(0xB99B6B),
            t.starting_pos_y == -3,
            t.starting_pos_x == 5,
    {
        let t = Tetromino {
            colour: colours::brown(),
            shape: vec![
                vec![BlockState::Ell, BlockState::Emp],
                vec![BlockState::Ell, BlockState::Emp],
                vec![BlockState::Ell, BlockState::Ell],
            ],
            starting_pos_y: -3,
            starting_pos_x: (NUM_COLS - 2) / 2,
        };
        proof {
            assert(t.shape_seq() =~~= ell_shape());
        }
        t
    }

    ///
    ///  xx
    /// xx
    ///
    pub fn ess() -> (t: Self)
        ensures
            t.shape_seq() == ess_shape(),
            t.colour == colours::rgb(0xA61F69),
            t.starting_pos_y == -2,
            t.starting_pos_x == 4,
    {
        let t = Tetromino {
            colour: colours::maroon(),
            shape: vec![
                vec![BlockState::Emp, BlockState::Ess, BlockState::Ess],
                vec![BlockState::Ess, BlockState::Ess, BlockState::Emp],
            ],
            starting_pos_y: -2,
            starting_pos_x: (NUM_COLS - 3) / 2,
        };
        proof {
            assert(t.shape_seq() =~~= ess_shape());
        }
        t
    }

    ///
    /// x
    /// x
    /// x
    /// x
    ///
    pub fn eye() -> (t: Self)
        ensures
            t.shape_seq() == eye_shape(),
            t.colour == colours::rgb(0xA084DC),
            t.starting_pos_y == -4,
            t.starting_pos_x == 5,
    {
        let t = Tetromino {
            colour: colours::light_purple(),
            shape: vec![
                vec![BlockState::Eye],
                vec![BlockState::Eye],
                vec![BlockState::Eye],
                vec![BlockState::Eye],
            ],
            starting_pos_y: -4,
            starting_pos_x: (NUM_COLS - 1) / 2,
        };
        proof {
            assert(t.shape_seq() =~~= eye_shape());
        }
        t
    }

    ///
    /// xx
    /// xx
    ///
    pub fn ohh() -> (t: Self)
        ensures
            t.shape_seq() == ohh_shape(),
            t.colour == colours::rgb(0x362FD9),
            t.starting_pos_y == -2,
            t.starting_pos_x == 5,
    {
        let t = Tetromino {
            colour: colours::navy_blue(),
            shape: vec![
                vec![BlockState::Ohh, BlockState::Ohh],
                vec![BlockState::Ohh, BlockState::Ohh],
            ],
            starting_pos_y: -2,
            starting_pos_x: (NUM_COLS - 2) / 2,
        };
        proof {
            assert(t.shape_seq() =~~= ohh_shape());
        }
        t
    }

    ///
    ///  x
    /// xxx
    ///
    pub fn tee() -> (t: Self)
        ensures
            t.shape_seq() == tee_shape(),
            t.colour == colours::rgb(0x7B8FA1),
            t.starting_pos_y == -2,
            t.starting_pos_x == 4,
    {
        let t = Tetromino {
            colour: colours::gray(),
            shape: vec![
                vec![BlockState::Emp, BlockState::Tee, BlockState::Emp],
                vec![BlockState::Tee, BlockState::Tee, BlockState::Tee],
            ],
            starting_pos_y: -2,
            starting_pos_x: (NUM_COLS - 3) / 2,
        };
        proof {
            assert(t.shape_seq() =~~= tee_shape());
        }
        t
    }

    ///
    /// xx
    ///  xx
    ///
    pub fn zee() -> (t: Self)
        ensures
            t.shape_seq() == zee_shape(),
            t.colour == colours::rgb(0xBFDB38),
            t.starting_pos_y == -2,
            t.starting_pos_x == 4,
    {
        let t = Tetromino {
            colour: colours::green(),
            shape: vec![
                vec![BlockState::Zee, BlockState::Zee, BlockState::Emp],
                vec![BlockState::Emp, BlockState::Zee, BlockState::Zee],
            ],
            starting_pos_y: -2,
            starting_pos_x: (NUM_COLS - 3) / 2,
        };
        proof {
            assert(t.shape_seq() =~~= zee_shape());
        }
        t
    }

    /// The degenerate placeholder template for the empty cell state: a single
    /// row with no cells.
    pub fn emp() -> (t: Self)
        ensures
            t.shape_seq() == emp_shape(),
            t.colour == colours::rgb(0xBFDB38),
            t.starting_pos_y == 0,
            t.starting_pos_x == 0,
    {
        let row: Vec<BlockState> = Vec::new();
        let mut shape: Vec<Vec<BlockState>> = Vec::new();
        shape.push(row);
        let t = Tetromino { colour: colours::green(), shape, starting_pos_y: 0, starting_pos_x: 0 };
        proof {
            assert(t.shape_seq() =~~= emp_shape());
        }
        t
    }
}

/// The dimensions and cells of a rotated grid, written out once so that the
/// chained rotations below unfold mechanically.
pub proof fn lemma_rotated_shape(s: Seq<Seq<BlockState>>)
    requires
        rect(s),
        1 <= s.len(),
        1 <= s[0].len(),
    ensures
        rotated(s).len() == s[0].len(),
        rotated(s)[0].len() == s.len(),
        rect(rotated(s)),
        forall|i: int, j: int|
            0 <= i < s[0].len() && 0 <= j < s.len() ==> #[trigger] rotated(s)[i][j] == s[j][s[0].len()
                - 1 - i],
{
    assert forall|i: int| 0 <= i < rotated(s).len() implies (#[trigger] rotated(s)[i]).len()
        == rotated(s)[0].len() by {
        assert(rotated(s)[i].len() == s.len());
    }
}

/// Rotation closure: four quarter turns bring any rectangular, non-degenerate
/// shape grid back to exactly the original grid.
pub proof fn lemma_rotate_four(s: Seq<Seq<BlockState>>)
    requires
        rect(s),
        1 <= s.len(),
        1 <= s[0].len(),
    ensures
        rotated(rotated(rotated(rotated(s)))) == s,
{
    let r1 = rotated(s);
    let r2 = rotated(r1);
    let r3 = rotated(r2);
    let r4 = rotated(r3);
    lemma_rotated_shape(s);
    lemma_rotated_shape(r1);
    lemma_rotated_shape(r2);
    lemma_rotated_shape(r3);
    assert forall|i: int| 0 <= i < s.len() implies #[trigger] r4[i] == s[i] by {
        assert forall|j: int| 0 <= j < s[0].len() implies #[trigger] r4[i][j] == s[i][j] by {
            assert(r4[i][j] == r3[j][s.len() - 1 - i]);
            assert(r3[j][s.len() - 1 - i] == r2[s.len() - 1 - i][s[0].len() - 1 - j]);
            assert(r2[s.len() - 1 - i][s[0].len() - 1 - j] == r1[s[0].len() - 1 - j][i]);
            assert(r1[s[0].len() - 1 - j][i] == s[i][j]);
        }
        assert(r4[i] =~= s[i]);
    }
    assert(r4 =~= s);
}

/// A piece at its spawn anchor has a usable shape, sits inside the board's
/// columns, and its bottom edge sits exactly at the top of the board.
pub proof fn lemma_spawn_piece(p: CurrentTetromino)
    requires
        is_spawn(p),
    ensures
        shape_wf(p.tetromino.shape_seq()),
        p.x + p.tetromino.shape_seq()[0].len() <= NUM_COLS,
        p.y + p.tetromino.shape_seq().len() == 0,
{
    let kind = choose|kind: BlockState| kind != BlockState::Emp && matches_template(p, kind);
    let s = p.tetromino.shape_seq();
    match kind {
        BlockState::Arr => {
            assert(s =~= arr_shape());
            assert forall|i: int| 0 <= i < s.len() implies (#[trigger] s[i]).len() == s[0].len() by {}
        },
        BlockState::Ell => {
            assert(s =~= ell_shape());
            assert forall|i: int| 0 <= i < s.len() implies (#[trigger] s[i]).len() == s[0].len() by {}
        },
        BlockState::Ess => {
            assert(s =~= ess_shape());
            assert forall|i: int| 0 <= i < s.len() implies (#[trigger] s[i]).len() == s[0].len() by {}
        },
        BlockState::Eye => {
            assert(s =~= eye_shape());
            assert forall|i: int| 0 <= i < s.len() implies (#[trigger] s[i]).len() == s[0].len() by {}
        },
        BlockState::Ohh => {
            assert(s =~= ohh_shape());
            assert forall|i: int| 0 <= i < s.len() implies (#[trigger] s[i]).len() == s[0].len() by {}
        },
        BlockState::Tee => {
            assert(s =~= tee_shape());
            assert forall|i: int| 0 <= i < s.len() implies (#[trigger] s[i]).len() == s[0].len() by {}
        },
        BlockState::Zee => {
            assert(s =~= zee_shape());
            assert forall|i: int| 0 <= i < s.len() implies (#[trigger] s[i]).len() == s[0].len() by {}
        },
        BlockState::Emp => {
            assert(false);
        },
    }
}

} // verus!
