//! A sliding-tile puzzle engine and the timed session that runs on top of it.
//!
//! - [`board`]: the board, its slides and its solved state.
//! - [`shuffle`]: the arrangement that a 32-byte seed stands for.
//! - [`puzzle`]: a board together with the seed it was generated from.
//! - [`game_state`]: the timed state of one solving attempt.
//! - [`session`]: a puzzle, its attempt and its move history, driven by events.
//! - [`clock`]: the clock that the session's times are read from.
//! - [`seed_text`]: the seed as text for display and sharing.
//! - [`signal_ext`]: updates that are passed on only where something changed.
//! - [`grid`]: row-major grid arithmetic and facts about permutations.

pub mod board;
pub mod clock;
pub mod game_state;
pub mod grid;
pub mod puzzle;
pub mod seed_text;
pub mod session;
pub mod shuffle;
pub mod signal_ext;
