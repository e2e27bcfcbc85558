//! Play against the engine: whatever the opponent does, the automated player
//! does not lose a game that it opens and in which it makes the engine's
//! moves.

use crate::board::{has_line, in_grid, is_vacant, with_mark};
use crate::board::is_full;
use crate::choice::{lemma_best_move_exists, lemma_best_move_is_optimal};
use crate::entity::Entity;
use crate::game::{lemma_step_keeps_valid, Session};
use crate::opening::lemma_opening_holds;
use crate::search::{best_move, is_best_move, is_over, move_score, value};
use crate::turns::{after_computer_turn, after_user_turn};
use crate::state::GameState;
use crate::values::{lemma_value_is_best_reply, reply_value};
use vstd::prelude::*;

verus! {

/// The automated player is not losing: while a move is awaited the minimax
/// value of the grid, with the awaited player to move, is not negative; and
/// if the game was won, the automated player won it.
pub open spec fn not_losing(s: Session) -> bool {
    match s.state {
        GameState::Playing(p) => value(s.board, p) >= 0,
        GameState::Repeat(p) => value(s.board, p) >= 0,
        GameState::Win(w) => w == Entity::Computer,
        _ => true,
    }
}

/// The session that a run of move attempts leads to, from a fresh session in
/// which play was started.
pub open spec fn session_after(attempts: Seq<(int, int)>) -> Session
    decreases attempts.len(),
{
    if attempts.len() == 0 {
        Session::initial().started()
    } else {
        session_after(attempts.drop_last()).step(attempts.last().0, attempts.last().1)
    }
}

/// Every attempt of the run aims at a cell of the grid, and every attempt made
/// when the automated player was to move is the engine's move on the grid as
/// it then stood. The attempts of the opponent are free.
pub open spec fn engine_moves(attempts: Seq<(int, int)>) -> bool
    decreases attempts.len(),
{
    attempts.len() > 0 ==> {
        let before = session_after(attempts.drop_last());
        &&& engine_moves(attempts.drop_last())
        &&& in_grid(attempts.last().0, attempts.last().1)
        &&& before.state.mover() == Some(Entity::Computer) ==> is_best_move(
            before.board,
            attempts.last().0,
            attempts.last().1,
        )
    }
}

/// One attempt keeps the automated player from losing: the engine's move
/// where the automated player is to move, any attempt where its opponent is.
pub proof fn lemma_step_keeps_not_losing(s: Session, x: int, y: int)
    requires
        s.valid(),
        not_losing(s),
        in_grid(x, y),
        s.state.mover() == Some(Entity::Computer) ==> is_best_move(s.board, x, y),
    ensures
        s.step(x, y).valid(),
        not_losing(s.step(x, y)),
{
    lemma_step_keeps_valid(s, x, y);
    if s.state.mover() is Some && s.board[x][y] == Entity::Empty {
        let p = s.state.mover().unwrap();
        let after = with_mark(s.board, x, y, p);
        assert(is_vacant(s.board, x, y));
        lemma_value_is_best_reply(s.board, p);
        if p == Entity::Computer {
            lemma_best_move_is_optimal(s.board, x, y);
            assert(move_score(s.board, x, y) == value(after, Entity::Human));
        } else {
            assert(reply_value(s.board, p, x, y) == value(after, Entity::Computer));
            assert(value(after, Entity::Computer) >= 0);
            assert(has_line(after, Entity::Human) ==> is_over(after));
        }
    }
}

/// A turn of the engine, and a turn of the opponent with the engine's answer,
/// keep the automated player from losing.
pub proof fn lemma_turns_keep_not_losing(s: Session, x: int, y: int)
    requires
        s.valid(),
        not_losing(s),
        in_grid(x, y),
    ensures
        after_computer_turn(s).valid(),
        not_losing(after_computer_turn(s)),
        !(s.state.mover() == Some(Entity::Computer)) ==> after_user_turn(s, x, y).valid() && not_losing(
            after_user_turn(s, x, y),
        ),
{
    if s.state.mover() == Some(Entity::Computer) {
        lemma_best_move_exists(s.board);
        lemma_step_keeps_not_losing(s, best_move(s.board).0, best_move(s.board).1);
    } else {
        lemma_step_keeps_not_losing(s, x, y);
        let t = s.step(x, y);
        if t.state.mover() == Some(Entity::Computer) {
            lemma_best_move_exists(t.board);
            lemma_step_keeps_not_losing(t, best_move(t.board).0, best_move(t.board).1);
        }
    }
}

/// The automated player never loses. In a game that it opens on a blank grid
/// and in which it makes the engine's move at each of its turns, no run of
/// attempts of the opponent leads to a win of the opponent: a game that has
/// ended was won by the automated player or drawn.
pub proof fn lemma_engine_never_loses(attempts: Seq<(int, int)>)
    requires
        engine_moves(attempts),
    ensures
        session_after(attempts).valid(),
        not_losing(session_after(attempts)),
        session_after(attempts).state != GameState::Win(Entity::Human),
        session_after(attempts).state.finished() ==> session_after(attempts).state == GameState::Win(
            Entity::Computer,
        ) || session_after(attempts).state == GameState::Draw,
    decreases attempts.len(),
{
    if attempts.len() == 0 {
        lemma_opening_holds();
    } else {
        lemma_engine_never_loses(attempts.drop_last());
        lemma_step_keeps_not_losing(
            session_after(attempts.drop_last()),
            attempts.last().0,
            attempts.last().1,
        );
    }
}

} // verus!
