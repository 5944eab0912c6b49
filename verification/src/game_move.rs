//! Move records: a player's intent and the persisted, chained entry that an
//! external store appends once a move has been validated.

use vstd::prelude::*;
use crate::moves::MoveType;

verus! {

/// A grid vertex: an (x, y) pair of non-negative bounded integers.
#[derive(Clone, Copy, Debug, PartialEq, Eq, Structural)]
pub struct Pos {
    pub x: u32,
    pub y: u32,
}

/// The raw payload an external caller submits when proposing a move,
/// before it is resolved into a typed `Move` record.
#[derive(Clone, Debug, PartialEq, Eq)]
pub struct MoveInput {
    pub game: String,
    pub move_type: String,
    pub from: Pos,
    pub to: Pos,
}

/// An accepted move record: the author's address, the address of the game
/// it belongs to, the typed payload, and a back-reference to the previous
/// move, forming an append-only chain per game.
#[derive(Debug, PartialEq, Eq)]
pub struct Move {
    pub game: String,
    pub author: String,
    pub move_type: MoveType,
    pub previous_move: String,
}

impl Clone for Move {
    fn clone(&self) -> (r: Move)
        ensures
            r == *self,
    {
        Move {
            game: self.game.clone(),
            author: self.author.clone(),
            move_type: self.move_type,
            previous_move: self.previous_move.clone(),
        }
    }
}

} // verus!
