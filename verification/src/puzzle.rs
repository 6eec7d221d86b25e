//! A board together with the seed it was generated from.

use vstd::prelude::*;
use crate::board::Board;
use crate::board::BoardView;
use crate::board::Direction;
use crate::shuffle::fresh_seed;
use crate::shuffle::shuffled;
use crate::shuffle::shuffled_cells;

verus! {

/// The board that `seed` generates in the given shape.
pub open spec fn generated_board(seed: Seq<u8>, width: nat, height: nat) -> BoardView {
    BoardView { width, height, cells: shuffled_cells(seed, width * height) }
}

/// What a seedable puzzle is to its contracts: its board and its seed.
pub struct SeedablePuzzleView {
    pub board: BoardView,
    pub seed: Seq<u8>,
}

impl SeedablePuzzleView {
    /// The board is the one that the seed generates, untouched since.
    pub open spec fn fresh(self) -> bool {
        self.board == generated_board(self.seed, self.board.width, self.board.height)
    }

    /// Two puzzles fresh from the same seed, in the same shape, are the same, cell by cell.
    pub proof fn lemma_same_seed_same_board(self, other: SeedablePuzzleView)
        requires
            self.fresh(),
            other.fresh(),
            self.seed == other.seed,
            self.board.width == other.board.width,
            self.board.height == other.board.height,
        ensures
            self == other,
            self.board.cells == other.board.cells,
    {
    }
}

/// A puzzle that remembers the 32-byte seed it was generated from, so that the same
/// shuffle can be had again.
pub struct SeedablePuzzle {
    puzzle: Board,
    seed: [u8; 32],
}

impl View for SeedablePuzzle {
    type V = SeedablePuzzleView;

    closed spec fn view(&self) -> SeedablePuzzleView {
        SeedablePuzzleView { board: self.puzzle@, seed: self.seed@ }
    }
}

impl SeedablePuzzle {
    /// The puzzle's invariant: its board is well formed.
    pub open spec fn wf(&self) -> bool {
        self@.board.wf()
    }

    /// The puzzle of the given shape that `seed` generates. Every arrangement of the
    /// labels can come out, those that no sequence of slides can solve among them.
    pub fn new_from_seed(seed: [u8; 32], shape: (usize, usize)) -> (puzzle: Self)
        requires
            2 <= shape.0 * shape.1 <= usize::MAX,
        ensures
            puzzle.wf(),
            puzzle@.seed == seed@,
            puzzle@.board == generated_board(seed@, shape.0 as nat, shape.1 as nat),
            puzzle@.fresh(),
    {
        let cells: Vec<usize> = shuffled(seed, shape.0 * shape.1);
        SeedablePuzzle { puzzle: Board::arranged(shape, cells), seed }
    }

    /// A puzzle of the given shape generated from a seed drawn afresh.
    pub fn new(shape: (usize, usize)) -> (puzzle: Self)
        requires
            2 <= shape.0 * shape.1 <= usize::MAX,
        ensures
            puzzle.wf(),
            puzzle@.board == generated_board(puzzle@.seed, shape.0 as nat, shape.1 as nat),
            puzzle@.fresh(),
    {
        Self::new_from_seed(fresh_seed(), shape)
    }

    /// Replaces the board by a freshly generated one of the same shape: from `new_seed`
    /// where one is given, else from a seed drawn afresh.
    pub fn regenerate(&mut self, new_seed: Option<[u8; 32]>)
        requires
            old(self).wf(),
        ensures
            final(self).wf(),
            new_seed matches Some(seed) ==> final(self)@.seed == seed@,
            final(self)@.board == generated_board(
                final(self)@.seed,
                old(self)@.board.width,
                old(self)@.board.height,
            ),
            final(self)@.fresh(),
    {
        let shape: (usize, usize) = self.puzzle.shape();
        let seed: [u8; 32] = match new_seed {
            Some(seed) => seed,
            None => fresh_seed(),
        };
        *self = Self::new_from_seed(seed, shape);
    }

    /// The seed that the board was generated from.
    pub fn seed(&self) -> (seed: &[u8; 32])
        ensures
            seed@ == self@.seed,
    {
        &self.seed
    }

    /// The board.
    pub fn board(&self) -> (board: &Board)
        ensures
            board@ == self@.board,
            self.wf() ==> board.wf(),
    {
        &self.puzzle
    }

    /// The board's width and height.
    pub fn shape(&self) -> (shape: (usize, usize))
        ensures
            shape.0 == self@.board.width,
            shape.1 == self@.board.height,
    {
        self.puzzle.shape()
    }

    /// A slide on the board, as `Board::slide_from` makes it. The seed stays.
    pub fn slide_from(&mut self, origin: (usize, usize)) -> (moved: usize)
        requires
            old(self).wf(),
            old(self)@.board.contains(origin.0 as int, origin.1 as int),
        ensures
            final(self).wf(),
            final(self)@.seed == old(self)@.seed,
            final(self)@.board == old(self)@.board.slid(origin.0 as int, origin.1 as int),
            moved == old(self)@.board.slide_count(origin.0 as int, origin.1 as int),
            moved == 0 ==> final(self)@ == old(self)@,
            final(self)@.board.hole() == (if moved > 0 {
                (origin.0 as int, origin.1 as int)
            } else {
                old(self)@.board.hole()
            }),
    {
        self.puzzle.slide_from(origin)
    }

    /// A slide on the board, as `Board::slide_towards` makes it. The seed stays.
    pub fn slide_towards(&mut self, direction: Direction, distance: usize) -> (moved: usize)
        requires
            old(self).wf(),
        ensures
            final(self).wf(),
            final(self)@.seed == old(self)@.seed,
            final(self)@.board == old(self)@.board.slid_towards(direction, distance as int),
            moved == old(self)@.board.moved_towards(direction, distance as int),
            moved == 0 || moved == distance,
            moved == 0 ==> final(self)@ == old(self)@,
    {
        self.puzzle.slide_towards(direction, distance)
    }

    /// Whether every piece is at home and the hole is in the last cell.
    pub fn is_solved(&self) -> (solved: bool)
        requires
            self.wf(),
        ensures
            solved == self@.board.is_solved(),
    {
        self.puzzle.is_solved()
    }
}

} // verus!
