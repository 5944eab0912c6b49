//! A rules engine for a Dots-and-Boxes variant on a fixed-size grid.
//!
//! The engine is pure logic over explicit state values: a board of drawn
//! lines, per-player box counters, a game status and a turn indicator.
//! Moves are validated against the current state (bounds, emptiness and
//! turn order, including the extra-turn-on-box-completion rule) and then
//! folded into a new immutable state. Persistence, transport and the
//! interactive shell are external collaborators; the `cli` module holds
//! the verified text-handling they share.

pub mod cli;
pub mod game;
pub mod game_move;
pub mod moves;
pub mod state;
pub mod text;
pub mod validation;
