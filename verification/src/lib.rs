//! The session of a number-placement puzzle game: the state of one game, the
//! events that change it, and what the game shows of it.
//!
//! - `grid`: the squares of the 9x9 grid and the relations between them.
//! - `board`: boards of 81 cells, the placement rule, solved grids.
//! - `engine`: puzzles and solutions from the `sudoku` crate.
//! - `clock`: the monotonic clock of the `instant` crate.
//! - `session`: the state of a game and its reaction to each event.
//! - `view`: the marks and texts that a session shows.
//! - `laws`: what holds of every session.

pub mod board;
pub mod clock;
pub mod engine;
pub mod grid;
pub mod laws;
pub mod session;
pub mod view;
