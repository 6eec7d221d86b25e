//! The timed state of one solving attempt, and the events that move it on.

use vstd::prelude::*;
use crate::clock::Clock;

verus! {

/// Where a solving attempt stands. Times are nanoseconds on the session clock.
#[derive(Clone, Copy, Debug, PartialEq, Eq, Structural)]
pub enum GameState {
    /// No attempt is being timed.
    NotSolving,
    /// An attempt is under way since the given time.
    Solving { since: u128 },
    /// The attempt ended and took the given time.
    Solved { took: u128 },
}

/// A state that a debug command can force.
#[derive(Clone, Copy, Debug, PartialEq, Eq, Structural)]
pub enum ForcedState {
    /// Stop timing.
    NotSolving,
    /// Start timing afresh.
    Solving,
    /// End the attempt that is under way.
    Solved,
}

/// The time from `since` to `now`, and zero where `now` lies before `since`.
pub open spec fn elapsed_between(since: u128, now: u128) -> u128 {
    if now >= since {
        (now - since) as u128
    } else {
        0
    }
}

/// The time from `since` to `now`, and zero where `now` lies before `since`.
pub fn elapsed(since: u128, now: u128) -> (span: u128)
    ensures
        span == elapsed_between(since, now),
{
    if now >= since {
        now - since
    } else {
        0
    }
}

/// A time as the timer shows it: the whole seconds, and the milliseconds of the second
/// that has begun.
pub fn timer_reading(time: u128) -> (reading: (u128, u32))
    ensures
        reading.0 == time / 1_000_000_000,
        reading.1 == (time / 1_000_000) % 1000,
{
    let seconds: u128 = time / 1_000_000_000;
    let millis: u128 = (time / 1_000_000) % 1000;
    (seconds, millis as u32)
}

impl GameState {
    /// The state after a move that displaced at least one piece, made at time `now`;
    /// `solved` says whether the board is solved after the move.
    pub open spec fn after_move(self, solved: bool, now: u128) -> GameState {
        match self {
            GameState::NotSolving => GameState::Solving { since: now },
            GameState::Solving { since } => if solved {
                GameState::Solved { took: elapsed_between(since, now) }
            } else {
                self
            },
            GameState::Solved { took: _ } => self,
        }
    }

    /// The state after the debug command that forces `target`, given at time `now`.
    /// Forcing `Solved` works from `Solving` only; elsewhere it changes nothing.
    pub open spec fn forced(self, target: ForcedState, now: u128) -> GameState {
        match target {
            ForcedState::NotSolving => GameState::NotSolving,
            ForcedState::Solving => GameState::Solving { since: now },
            ForcedState::Solved => match self {
                GameState::Solving { since } => GameState::Solved {
                    took: elapsed_between(since, now),
                },
                _ => self,
            },
        }
    }

    /// The solve time shown at time `now`: none before an attempt, the time run so far
    /// during one, the time taken after one.
    pub open spec fn time_at(self, now: u128) -> Option<u128> {
        match self {
            GameState::NotSolving => None,
            GameState::Solving { since } => Some(elapsed_between(since, now)),
            GameState::Solved { took } => Some(took),
        }
    }

    /// The state after a move that displaced at least one piece, made at time `now`;
    /// `solved` says whether the board is solved after the move. The first such move
    /// starts the clock; one that solves the board during an attempt stops it.
    pub fn on_move(self, solved: bool, now: u128) -> (next: GameState)
        ensures
            next == self.after_move(solved, now),
    {
        match self {
            GameState::NotSolving => GameState::Solving { since: now },
            GameState::Solving { since } => if solved {
                GameState::Solved { took: elapsed(since, now) }
            } else {
                self
            },
            GameState::Solved { took: _ } => self,
        }
    }

    /// The state after the debug command that forces `target`, given at time `now`.
    pub fn force(self, target: ForcedState, now: u128) -> (next: GameState)
        ensures
            next == self.forced(target, now),
    {
        match target {
            ForcedState::NotSolving => GameState::NotSolving,
            ForcedState::Solving => GameState::Solving { since: now },
            ForcedState::Solved => match self {
                GameState::Solving { since } => GameState::Solved { took: elapsed(since, now) },
                _ => self,
            },
        }
    }

    /// The solve time shown at time `now`.
    pub fn solve_time_at(&self, now: u128) -> (time: Option<u128>)
        ensures
            time == self.time_at(now),
    {
        match *self {
            GameState::NotSolving => None,
            GameState::Solving { since } => Some(elapsed(since, now)),
            GameState::Solved { took } => Some(took),
        }
    }

    /// The solve time shown now, on `clock`. During an attempt the clock is read at each
    /// call, so that two calls may differ; the time of a finished attempt is fixed.
    pub fn solve_time(&self, clock: &Clock) -> (time: Option<u128>)
        ensures
            exists|now: u128| time == self.time_at(now),
            !(self is Solving) ==> time == self.time_at(0),
    {
        match *self {
            GameState::Solving { since } => {
                let now: u128 = clock.now();
                let time: Option<u128> = Some(elapsed(since, now));
                assert(time == self.time_at(now));
                time
            },
            GameState::Solved { took } => {
                assert(Some(took) == self.time_at(0));
                Some(took)
            },
            GameState::NotSolving => {
                assert(None::<u128> == self.time_at(0));
                None
            },
        }
    }

    /// An attempt that starts with a first move at time `start` and, on a later move at
    /// time `end`, reaches the solved board, has then taken the time from `start` to
    /// `end`; moves in between that do not solve the board change nothing; and a reset
    /// from any state leads back to `NotSolving`.
    pub proof fn lemma_attempt(self, start: u128, middle: u128, end: u128, first_solves: bool)
        requires
            start <= end,
        ensures
            GameState::NotSolving.after_move(first_solves, start) == (GameState::Solving {
                since: start,
            }),
            GameState::NotSolving.after_move(first_solves, start).after_move(false, middle)
                == (GameState::Solving { since: start }),
            GameState::NotSolving.after_move(first_solves, start).after_move(
                false,
                middle,
            ).after_move(true, end) == (GameState::Solved { took: (end - start) as u128 }),
            self.forced(ForcedState::NotSolving, end) == GameState::NotSolving,
    {
    }
}

} // verus!
