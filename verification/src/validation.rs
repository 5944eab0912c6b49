//! Move validation: turn order (including the extra-turn rule), bounds and
//! emptiness. The external admission pipeline must run `Move::is_valid`
//! before a move record is accepted as canonical.

use vstd::prelude::*;
use crate::game::Game;
use crate::game_move::Move;
use crate::moves::MoveType;
use crate::moves::spec_line_of;
use crate::state::GameState;
use crate::state::Line;
use crate::state::Reason;
use crate::state::spec_boxes_completed;
use crate::state::spec_in_bounds;

verus! {

/// Whether `player` is entitled to make the next move. With no prior move,
/// only player 2 (the fixed opener) may act. Otherwise the last recorded
/// move decides: if it finished at least one box, its author moves again;
/// if not, the turn alternates to the other participant. Whether the last
/// move finished a box is re-derived from the cumulative line set, which
/// already includes that move's own line; the line itself never appears
/// among the three other edges of a box it closes, so the answer equals
/// what was computed when the move was applied.
pub open spec fn spec_turn_check(player: Seq<char>, game: Game, state: GameState) -> Result<
    (),
    Reason,
> {
    if state.moves@.len() == 0 {
        if game.player_2@ == player {
            Ok(())
        } else {
            Err(Reason::FirstMoveInvalid)
        }
    } else {
        let last = state.moves@.last();
        if spec_boxes_completed(state.lines@, spec_line_of(last.move_type)) > 0 {
            if last.author@ != player {
                Err(Reason::WrongTurn)
            } else {
                Ok(())
            }
        } else {
            if last.author@ == player {
                Err(Reason::WrongTurn)
            } else {
                Ok(())
            }
        }
    }
}

/// The full validation verdict for a candidate move, fail-fast: the turn
/// check first, then bounds, then emptiness; `Ok` only if all three pass.
pub open spec fn spec_validate(mv: Move, game: Game, state: GameState) -> Result<(), Reason> {
    if spec_turn_check(mv.author@, game, state) is Err {
        spec_turn_check(mv.author@, game, state)
    } else {
        let l = spec_line_of(mv.move_type);
        if !spec_in_bounds(l) {
            Err(Reason::OutOfBounds)
        } else if state.lines@.contains(l) {
            Err(Reason::CellOccupied)
        } else {
            Ok(())
        }
    }
}

/// Turn-order check: players alternate, except that a player whose last
/// move finished one or two boxes moves again.
fn is_players_turn(player: &String, game: &Game, game_state: &GameState) -> (r: Result<
    (),
    Reason,
>)
    requires
        game_state.moves_in_bounds(),
    ensures
        r == spec_turn_check(player@, *game, *game_state),
{
    let n = game_state.moves.len();
    if n == 0 {
        // No moves yet: player 2 opens, by fixed convention.
        if game.player_2 == *player {
            Ok(())
        } else {
            Err(Reason::FirstMoveInvalid)
        }
    } else {
        let last_move = &game_state.moves[n - 1];
        match last_move.move_type {
            MoveType::Place { x, y, direction } => {
                let last_line = Line { x, y, direction };
                if last_line.is_part_of_box(game_state) > 0 {
                    if last_move.author != *player {
                        Err(Reason::WrongTurn)
                    } else {
                        Ok(())
                    }
                } else if last_move.author == *player {
                    Err(Reason::WrongTurn)
                } else {
                    Ok(())
                }
            },
        }
    }
}

impl Move {
    /// Decides whether this candidate move is legal given the match and
    /// its current state: the author must be entitled to move next, and
    /// the requested line must fit on the board and not already be drawn.
    /// Returns the first failure encountered; there are no side effects.
    pub fn is_valid(&self, game: Game, game_state: GameState) -> (r: Result<(), Reason>)
        requires
            game_state.moves_in_bounds(),
        ensures
            r == spec_validate(*self, game, game_state),
    {
        match is_players_turn(&self.author, &game, &game_state) {
            Err(e) => Err(e),
            Ok(()) => {
                match self.move_type {
                    MoveType::Place { x, y, direction } => {
                        let pos = Line { x, y, direction };
                        match pos.is_in_bounds() {
                            Err(e) => Err(e),
                            Ok(()) => {
                                match pos.is_empty(&game_state) {
                                    Err(e) => Err(e),
                                    Ok(()) => Ok(()),
                                }
                            },
                        }
                    },
                }
            },
        }
    }
}

/// Turn alternation: when the last recorded move finished no box, a
/// follow-up by its own author is rejected as `WrongTurn`, and the turn
/// check passes for anyone else.
pub proof fn lemma_turn_alternation(game: Game, state: GameState, mv: Move)
    requires
        state.moves@.len() > 0,
        spec_boxes_completed(state.lines@, spec_line_of(state.moves@.last().move_type)) == 0,
    ensures
        mv.author@ == state.moves@.last().author@ ==> spec_validate(mv, game, state)
            == Err::<(), Reason>(Reason::WrongTurn),
        mv.author@ != state.moves@.last().author@ ==> spec_turn_check(mv.author@, game, state)
            == Ok::<(), Reason>(()),
{
}

/// Extra turn: when the last recorded move finished at least one box, a
/// follow-up by any other author is rejected as `WrongTurn`, while a legal
/// line (in bounds, not yet drawn) by the same author is accepted.
pub proof fn lemma_extra_turn(game: Game, state: GameState, mv: Move)
    requires
        state.moves@.len() > 0,
        spec_boxes_completed(state.lines@, spec_line_of(state.moves@.last().move_type)) > 0,
    ensures
        mv.author@ != state.moves@.last().author@ ==> spec_validate(mv, game, state)
            == Err::<(), Reason>(Reason::WrongTurn),
        mv.author@ == state.moves@.last().author@ && spec_in_bounds(spec_line_of(mv.move_type))
            && !state.lines@.contains(spec_line_of(mv.move_type)) ==> spec_validate(
            mv,
            game,
            state,
        ) == Ok::<(), Reason>(()),
{
}

/// First move: on a fresh game, a move by anyone but player 2 is rejected
/// as `FirstMoveInvalid`, while a legal line by player 2 is accepted.
pub proof fn lemma_first_move(game: Game, state: GameState, mv: Move)
    requires
        state.moves@.len() == 0,
    ensures
        mv.author@ != game.player_2@ ==> spec_validate(mv, game, state) == Err::<(), Reason>(
            Reason::FirstMoveInvalid,
        ),
        mv.author@ == game.player_2@ && spec_in_bounds(spec_line_of(mv.move_type))
            && !state.lines@.contains(spec_line_of(mv.move_type)) ==> spec_validate(
            mv,
            game,
            state,
        ) == Ok::<(), Reason>(()),
{
}

} // verus!
