//! One puzzle with its timed attempt and the record of the moves made on it.

use vstd::prelude::*;
use vstd::string::StringExecFns;
use crate::board::BoardView;
use crate::board::Direction;
use crate::clock::Clock;
use crate::game_state::ForcedState;
use crate::game_state::GameState;
use crate::puzzle::generated_board;
use crate::puzzle::SeedablePuzzle;
use crate::puzzle::SeedablePuzzleView;

verus! {

/// What a session is to its contracts.
pub struct SessionView {
    pub puzzle: SeedablePuzzleView,
    pub state: GameState,
    pub history: Seq<char>,
    pub dev_mode: bool,
}

impl SessionView {
    /// The session once a move request made at time `now` under the name `token` has
    /// turned the board into `board` by moving `moved` pieces. A request that moved
    /// nothing leaves the session as it was; one that moved something is added to the
    /// history and is passed on to the game state.
    pub open spec fn after_move(
        self,
        board: BoardView,
        moved: nat,
        token: Seq<char>,
        now: u128,
    ) -> SessionView {
        if moved == 0 {
            self
        } else {
            SessionView {
                puzzle: SeedablePuzzleView { board, seed: self.puzzle.seed },
                state: self.state.after_move(board.is_solved(), now),
                history: self.history + token,
                dev_mode: self.dev_mode,
            }
        }
    }

    /// The session after a request to slide from column `ox`, row `oy`.
    pub open spec fn moved_from(self, ox: int, oy: int, token: Seq<char>, now: u128) -> SessionView {
        self.after_move(
            self.puzzle.board.slid(ox, oy),
            self.puzzle.board.slide_count(ox, oy),
            token,
            now,
        )
    }

    /// The session after a request to slide `distance` pieces in `direction`.
    pub open spec fn moved_towards(
        self,
        direction: Direction,
        distance: int,
        token: Seq<char>,
        now: u128,
    ) -> SessionView {
        self.after_move(
            self.puzzle.board.slid_towards(direction, distance),
            self.puzzle.board.moved_towards(direction, distance),
            token,
            now,
        )
    }

    /// The session after a reset that generated its new board from `seed`.
    pub open spec fn reset_with(self, seed: Seq<u8>) -> SessionView {
        SessionView {
            puzzle: SeedablePuzzleView {
                board: generated_board(seed, self.puzzle.board.width, self.puzzle.board.height),
                seed,
            },
            state: GameState::NotSolving,
            history: Seq::empty(),
            dev_mode: self.dev_mode,
        }
    }

    /// From `NotSolving`, a request that moves a piece at time `start` starts the attempt;
    /// a later request, at time `end`, that moves a piece and leaves the board solved ends
    /// it, and the attempt took the time from `start` to `end`; a reset then leads back to
    /// `NotSolving`, as it does from every state.
    pub proof fn lemma_attempt(
        self,
        first: (int, int),
        second: (int, int),
        token: Seq<char>,
        start: u128,
        end: u128,
        seed: Seq<u8>,
    )
        requires
            self.state == GameState::NotSolving,
            start <= end,
            self.puzzle.board.slide_count(first.0, first.1) > 0,
            self.moved_from(first.0, first.1, token, start).puzzle.board.slide_count(
                second.0,
                second.1,
            ) > 0,
            self.moved_from(first.0, first.1, token, start).puzzle.board.slid(
                second.0,
                second.1,
            ).is_solved(),
        ensures
            self.moved_from(first.0, first.1, token, start).state == (GameState::Solving {
                since: start,
            }),
            self.moved_from(first.0, first.1, token, start).moved_from(
                second.0,
                second.1,
                token,
                end,
            ).state == (GameState::Solved { took: (end - start) as u128 }),
            self.reset_with(seed).state == GameState::NotSolving,
            self.moved_from(first.0, first.1, token, start).reset_with(seed).state
                == GameState::NotSolving,
            self.moved_from(first.0, first.1, token, start).moved_from(
                second.0,
                second.1,
                token,
                end,
            ).reset_with(seed).state == GameState::NotSolving,
    {
    }

    /// A move request is added to the history exactly where it moved a piece, and a
    /// request that moved none changes nothing at all.
    pub proof fn lemma_history_discipline(self, ox: int, oy: int, token: Seq<char>, now: u128)
        ensures
            self.puzzle.board.slide_count(ox, oy) > 0 ==> self.moved_from(ox, oy, token, now).history
                == self.history + token,
            self.puzzle.board.slide_count(ox, oy) == 0 ==> self.moved_from(ox, oy, token, now)
                == self,
    {
    }
}

/// A puzzle, the state of the attempt to solve it, the names of the moves made so far,
/// and the debug switch.
pub struct Session {
    puzzle: SeedablePuzzle,
    state: GameState,
    history: String,
    dev_mode: bool,
}

impl View for Session {
    type V = SessionView;

    closed spec fn view(&self) -> SessionView {
        SessionView {
            puzzle: self.puzzle@,
            state: self.state,
            history: self.history@,
            dev_mode: self.dev_mode,
        }
    }
}

impl Session {
    /// The session's invariant: its board is well formed.
    pub open spec fn wf(&self) -> bool {
        self@.puzzle.board.wf()
    }

    /// A session on a puzzle of the given shape, generated from a seed drawn afresh.
    pub fn new(shape: (usize, usize)) -> (session: Session)
        requires
            2 <= shape.0 * shape.1 <= usize::MAX,
        ensures
            session.wf(),
            session@.puzzle.board == generated_board(
                session@.puzzle.seed,
                shape.0 as nat,
                shape.1 as nat,
            ),
            session@.state == GameState::NotSolving,
            session@.history == Seq::<char>::empty(),
            !session@.dev_mode,
    {
        Session {
            puzzle: SeedablePuzzle::new(shape),
            state: GameState::NotSolving,
            history: String::new(),
            dev_mode: false,
        }
    }

    /// A session on the puzzle of the given shape that `seed` generates.
    pub fn new_from_seed(seed: [u8; 32], shape: (usize, usize)) -> (session: Session)
        requires
            2 <= shape.0 * shape.1 <= usize::MAX,
        ensures
            session.wf(),
            session@ == (SessionView {
                puzzle: SeedablePuzzleView {
                    board: generated_board(seed@, shape.0 as nat, shape.1 as nat),
                    seed: seed@,
                },
                state: GameState::NotSolving,
                history: Seq::empty(),
                dev_mode: false,
            }),
    {
        Session {
            puzzle: SeedablePuzzle::new_from_seed(seed, shape),
            state: GameState::NotSolving,
            history: String::new(),
            dev_mode: false,
        }
    }

    /// Takes note of a request that moved `moved` pieces on the board: where any moved,
    /// the request is added to the history and passed on to the game state.
    fn record_move(&mut self, moved: usize, token: &str, now: u128)
        requires
            old(self).wf(),
        ensures
            final(self).wf(),
            final(self)@ == old(self)@.after_move(
                old(self)@.puzzle.board,
                moved as nat,
                token@,
                now,
            ),
    {
        if moved > 0 {
            self.history.append(token);
            let solved: bool = match self.state {
                GameState::Solving { since: _ } => self.puzzle.is_solved(),
                _ => false,
            };
            self.state = self.state.on_move(solved, now);
        }
    }

    /// Asks for a slide from `origin`, at time `now`, under the name `token`, and returns
    /// how many pieces moved. A request that moves at least one piece is added to the
    /// history and drives the game state; any other changes nothing.
    pub fn move_request(&mut self, origin: (usize, usize), token: &str, now: u128) -> (moved: usize)
        requires
            old(self).wf(),
            old(self)@.puzzle.board.contains(origin.0 as int, origin.1 as int),
        ensures
            final(self).wf(),
            moved == old(self)@.puzzle.board.slide_count(origin.0 as int, origin.1 as int),
            final(self)@ == old(self)@.moved_from(origin.0 as int, origin.1 as int, token@, now),
            moved == 0 ==> final(self)@ == old(self)@,
    {
        proof {
            self@.puzzle.board.lemma_alignment(origin.0 as int, origin.1 as int);
        }
        let moved: usize = self.puzzle.slide_from(origin);
        self.record_move(moved, token, now);
        moved
    }

    /// Asks for a slide of `distance` pieces in `direction`, at time `now`, under the name
    /// `token`, and returns how many pieces moved.
    pub fn move_towards(
        &mut self,
        direction: Direction,
        distance: usize,
        token: &str,
        now: u128,
    ) -> (moved: usize)
        requires
            old(self).wf(),
        ensures
            final(self).wf(),
            moved == old(self)@.puzzle.board.moved_towards(direction, distance as int),
            final(self)@ == old(self)@.moved_towards(direction, distance as int, token@, now),
            moved == 0 ==> final(self)@ == old(self)@,
    {
        proof {
            let origin = self@.puzzle.board.origin_towards(direction, distance as int);
            if self@.puzzle.board.contains(origin.0, origin.1) {
                self@.puzzle.board.lemma_alignment(origin.0, origin.1);
            }
        }
        let moved: usize = self.puzzle.slide_towards(direction, distance);
        self.record_move(moved, token, now);
        moved
    }

    /// Starts over on a freshly generated board of the same shape: from `seed` where one
    /// is given, else from a seed drawn afresh. The history is emptied and no attempt is
    /// being timed.
    pub fn reset_request(&mut self, seed: Option<[u8; 32]>)
        requires
            old(self).wf(),
        ensures
            final(self).wf(),
            seed matches Some(given) ==> final(self)@.puzzle.seed == given@,
            final(self)@ == old(self)@.reset_with(final(self)@.puzzle.seed),
    {
        self.puzzle.regenerate(seed);
        self.history = String::new();
        self.state = GameState::NotSolving;
    }

    /// Flips the debug switch.
    pub fn debug_toggle(&mut self)
        ensures
            final(self).wf() == old(self).wf(),
            final(self)@ == (SessionView { dev_mode: !old(self)@.dev_mode, ..old(self)@ }),
    {
        self.dev_mode = !self.dev_mode;
    }

    /// The debug command that forces the game state `target`, given at time `now`.
    pub fn force_state(&mut self, target: ForcedState, now: u128)
        ensures
            final(self).wf() == old(self).wf(),
            final(self)@ == (SessionView {
                state: old(self)@.state.forced(target, now),
                ..old(self)@
            }),
    {
        self.state = self.state.force(target, now);
    }

    /// The puzzle.
    pub fn puzzle(&self) -> (puzzle: &SeedablePuzzle)
        ensures
            puzzle@ == self@.puzzle,
            self.wf() ==> puzzle.wf(),
    {
        &self.puzzle
    }

    /// The board's width and height.
    pub fn shape(&self) -> (shape: (usize, usize))
        ensures
            shape.0 == self@.puzzle.board.width,
            shape.1 == self@.puzzle.board.height,
    {
        self.puzzle.shape()
    }

    /// A copy of the cells, row by row.
    pub fn cells_snapshot(&self) -> (cells: Vec<usize>)
        ensures
            cells@ == self@.puzzle.board.cells,
    {
        self.puzzle.board().cells()
    }

    /// The column and row of the cell that holds `label`.
    pub fn position_of(&self, label: usize) -> (position: (usize, usize))
        requires
            self.wf(),
            label < self@.puzzle.board.width * self@.puzzle.board.height,
        ensures
            (position.0 as int, position.1 as int) == self@.puzzle.board.position_of(label),
            self@.puzzle.board.contains(position.0 as int, position.1 as int),
            self@.puzzle.board.at(position.0 as int, position.1 as int) == label,
    {
        self.puzzle.board().position_of(label)
    }

    /// Whether the board is solved.
    pub fn is_solved(&self) -> (solved: bool)
        requires
            self.wf(),
        ensures
            solved == self@.puzzle.board.is_solved(),
    {
        self.puzzle.is_solved()
    }

    /// The seed that the present board was generated from.
    pub fn current_seed(&self) -> (seed: &[u8; 32])
        ensures
            seed@ == self@.puzzle.seed,
    {
        self.puzzle.seed()
    }

    /// The state of the attempt.
    pub fn game_state(&self) -> (state: GameState)
        ensures
            state == self@.state,
    {
        self.state
    }

    /// The solve time shown at time `now`.
    pub fn solve_time_at(&self, now: u128) -> (time: Option<u128>)
        ensures
            time == self@.state.time_at(now),
    {
        self.state.solve_time_at(now)
    }

    /// The solve time shown now, on `clock`.
    pub fn solve_time(&self, clock: &Clock) -> (time: Option<u128>)
        ensures
            exists|now: u128| time == self@.state.time_at(now),
            !(self@.state is Solving) ==> time == self@.state.time_at(0),
    {
        self.state.solve_time(clock)
    }

    /// The names of the moves made since the board was generated, in order.
    pub fn move_history(&self) -> (history: &str)
        ensures
            history@ == self@.history,
    {
        self.history.as_str()
    }

    /// Whether the debug switch is on.
    pub fn dev_mode(&self) -> (on: bool)
        ensures
            on == self@.dev_mode,
    {
        self.dev_mode
    }
}

} // verus!
