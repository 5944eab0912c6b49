//! The closed set of move shapes a player may submit.

use vstd::prelude::*;
use crate::state::Line;
use crate::state::LineDirection;

verus! {

/// The edge a move asks to draw.
pub open spec fn spec_line_of(mt: MoveType) -> Line {
    match mt {
        MoveType::Place { x, y, direction } => Line { x, y, direction },
    }
}

/// Every kind of move the game accepts, with the data it carries. The board
/// is a grid of `BOARD_SIZE` x `BOARD_SIZE` dots labelled from a lower-left
/// origin; a `Place` move draws a line from vertex `(x, y)` in the given
/// direction (`Up` for vertical, `Right` for horizontal).
#[derive(Clone, Copy, Debug, PartialEq, Eq, Structural)]
pub enum MoveType {
    Place { x: usize, y: usize, direction: LineDirection },
}

impl MoveType {
    /// One representative example of each move shape.
    pub fn describe() -> (r: Vec<MoveType>)
        ensures
            r@ == seq![MoveType::Place { x: 0, y: 0, direction: LineDirection::Up }],
    {
        let mut examples: Vec<MoveType> = Vec::new();
        examples.push(MoveType::Place { x: 0, y: 0, direction: LineDirection::Up });
        assert(examples@ =~= seq![
            MoveType::Place { x: 0, y: 0, direction: LineDirection::Up },
        ]);
        examples
    }
}

} // verus!
