//! Turns: how the session and the engine work together. The engine moves
//! where the move is the automated player's; an attempt of the opponent is
//! applied and, where it was accepted and the game goes on, answered.

use crate::board::{board_is_full, is_full};
use crate::computer::Computer;
use crate::entity::Entity;
use crate::game::{Game, Session};
use crate::search::best_move;
use crate::state::GameState;
use vstd::prelude::*;

verus! {

/// The session after the engine was given its turn: where the automated
/// player is awaited and a cell is empty, the engine's move is applied; else
/// nothing changes.
pub open spec fn after_computer_turn(s: Session) -> Session {
    if s.state.mover() == Some(Entity::Computer) && !is_full(s.board) {
        s.step(best_move(s.board).0, best_move(s.board).1)
    } else {
        s
    }
}

/// The session after an attempt at `(x, y)` and the engine's turn that
/// follows it.
pub open spec fn after_user_turn(s: Session, x: int, y: int) -> Session {
    after_computer_turn(s.step(x, y))
}

/// Gives the engine its turn.
pub fn computer_turn(game: &mut Game, engine: &mut Computer)
    ensures
        final(game)@ == after_computer_turn(old(game)@),
{
    let awaited = match game.state() {
        GameState::Playing(p) => p == Entity::Computer,
        GameState::Repeat(p) => p == Entity::Computer,
        _ => false,
    };
    if awaited && !board_is_full(game.board()) {
        let best = engine.best_play(*game.board());
        game.update(best.0, best.1);
    }
}

/// Applies an attempt at `(x, y)`, then gives the engine its turn.
pub fn user_turn(game: &mut Game, engine: &mut Computer, x: usize, y: usize)
    requires
        x < 3,
        y < 3,
    ensures
        final(game)@ == after_user_turn(old(game)@, x as int, y as int),
{
    game.update(x, y);
    computer_turn(game, engine);
}

} // verus!
