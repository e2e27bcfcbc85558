//! The game session: the grid, the phase of play, and the rules by which a
//! move is applied.

use crate::board::{
    blank, board_is_full, has_line, has_line_through, in_grid, is_full, is_vacant,
    lemma_with_mark_count, occupied_count, with_mark, Board,
};
use crate::entity::Entity;
use crate::state::GameState;
use std::ops::Not;
use vstd::prelude::*;

verus! {

/// A session as a value: what the grid holds and the phase of play. The rules
/// of the game are stated on it.
pub struct Session {
    pub board: Board,
    pub state: GameState,
}

impl Session {
    /// The session before play: a blank grid, in phase `Ready`.
    pub open spec fn initial() -> Session {
        Session { board: blank(), state: GameState::Ready }
    }

    /// The session that a reset hands out, whatever this one holds: a fresh
    /// one.
    pub open spec fn reset(self) -> Session {
        Session::initial()
    }

    /// The session after play was started. From `Ready` the automated player
    /// is to move first; in any other phase starting changes nothing.
    pub open spec fn started(self) -> Session {
        if self.state is Ready {
            Session { board: self.board, state: GameState::Playing(Entity::Computer) }
        } else {
            self
        }
    }

    /// The phase that follows when `p` has just marked `(x, y)` and the grid
    /// is now `board`: won where a line through that cell is complete, else
    /// drawn where the grid is full, else the other player's turn.
    pub open spec fn phase_after_mark(board: Board, p: Entity, x: int, y: int) -> GameState {
        if has_line_through(board, p, x, y) {
            GameState::Win(p)
        } else if is_full(board) {
            GameState::Draw
        } else {
            GameState::Playing(p.complement())
        }
    }

    /// The session after an attempt to move to `(x, y)`. Outside play nothing
    /// changes. On an occupied cell the grid stays and the same player is
    /// asked again. On an empty cell the player's mark is placed and the
    /// phase follows from the grid.
    pub open spec fn step(self, x: int, y: int) -> Session {
        match self.state.mover() {
            None => self,
            Some(p) => if self.board[x][y] != Entity::Empty {
                Session { board: self.board, state: GameState::Repeat(p) }
            } else {
                Session {
                    board: with_mark(self.board, x, y, p),
                    state: Session::phase_after_mark(with_mark(self.board, x, y, p), p, x, y),
                }
            },
        }
    }

    /// Nobody has completed a line.
    pub open spec fn no_line(self) -> bool {
        !has_line(self.board, Entity::Computer) && !has_line(self.board, Entity::Human)
    }

    /// What holds of every session that play can reach. Before play the grid
    /// is blank. While a move is awaited, a player is to move, nobody has a
    /// line and a cell is empty. A won session holds a line of the winner and
    /// none of the loser. A drawn session is full and holds no line.
    pub open spec fn valid(self) -> bool {
        match self.state {
            GameState::Ready => self.board == blank(),
            GameState::Playing(p) => p.is_player() && self.no_line() && !is_full(self.board),
            GameState::Repeat(p) => p.is_player() && self.no_line() && !is_full(self.board),
            GameState::Win(w) => w.is_player() && has_line(self.board, w) && !has_line(
                self.board,
                w.complement(),
            ),
            GameState::Draw => self.no_line() && is_full(self.board),
        }
    }
}

/// A game session. Its grid and phase change only through `start` and
/// `update`.
pub struct Game {
    board: Board,
    state: GameState,
}

impl View for Game {
    type V = Session;

    closed spec fn view(&self) -> Session {
        Session { board: self.board, state: self.state }
    }
}

impl Default for Game {
    fn default() -> (game: Game)
        ensures
            game@ == Session::initial(),
    {
        let game = Game { board: [[Entity::Empty; 3]; 3], state: GameState::Ready };
        proof {
            assert(game.board[0] =~= blank()[0]);
            assert(game.board[1] =~= blank()[1]);
            assert(game.board[2] =~= blank()[2]);
            assert(game.board =~= blank());
        }
        game
    }
}

impl Game {
    /// A fresh session. This one is left as it is.
    pub fn reset(&self) -> (fresh: Game)
        ensures
            fresh@ == self@.reset(),
    {
        Game::default()
    }

    /// The grid.
    pub fn board(&self) -> (board: &Board)
        ensures
            *board == self@.board,
    {
        &self.board
    }

    fn is_valid_position(&self, x: usize, y: usize) -> (free: bool)
        requires
            x < 3,
            y < 3,
        ensures
            free == (self@.board[x as int][y as int] == Entity::Empty),
    {
        self.board[x][y] == Entity::Empty
    }

    fn update_board(&mut self, entity: Entity, x: usize, y: usize)
        requires
            x < 3,
            y < 3,
        ensures
            final(self)@.board == with_mark(old(self)@.board, x as int, y as int, entity),
            final(self)@.state == old(self)@.state,
    {
        self.board[x][y] = entity;
        proof {
            let target = with_mark(old(self).board, x as int, y as int, entity);
            assert(self.board[0] =~= target[0]);
            assert(self.board[1] =~= target[1]);
            assert(self.board[2] =~= target[2]);
            assert(self.board =~= target);
        }
    }

    fn set_state(&mut self, state: GameState)
        ensures
            final(self)@.state == state,
            final(self)@.board == old(self)@.board,
    {
        self.state = state;
    }

    /// The phase.
    pub fn state(&self) -> (state: GameState)
        ensures
            state == self@.state,
    {
        self.state.clone()
    }

    /// Starts play: from `Ready` the automated player is to move first. In
    /// any other phase the call changes nothing.
    pub fn start(&mut self)
        ensures
            final(self)@ == old(self)@.started(),
    {
        if matches!(self.state, GameState::Ready) {
            self.set_state(GameState::Playing(Entity::Computer));
        }
    }

    fn is_winner(&self, entity: Entity, x: usize, y: usize) -> (won: bool)
        requires
            x < 3,
            y < 3,
        ensures
            won == has_line_through(self@.board, entity, x as int, y as int),
    {
        if (self.board[x][0] == entity && self.board[x][1] == entity && self.board[x][2] == entity) || (
        self.board[0][y] == entity && self.board[1][y] == entity && self.board[2][y] == entity) {
            return true;
        }
        if x == y && self.board[0][0] == entity && self.board[1][1] == entity && self.board[2][2]
            == entity {
            return true;
        }
        if x + y == 2 && self.board[0][2] == entity && self.board[1][1] == entity && self.board[2][0]
            == entity {
            return true;
        }
        false
    }

    /// Attempts the move to `(x, y)` for the player whose turn it is.
    pub fn update(&mut self, x: usize, y: usize)
        requires
            x < 3,
            y < 3,
        ensures
            final(self)@ == old(self)@.step(x as int, y as int),
    {
        let entity = match self.state {
            GameState::Playing(s) => s,
            GameState::Repeat(s) => s,
            _ => {
                return ;
            },
        };
        if !self.is_valid_position(x, y) {
            return self.set_state(GameState::Repeat(entity));
        }
        self.update_board(entity, x, y);
        if self.is_winner(entity, x, y) {
            return self.set_state(GameState::Win(entity));
        }
        if board_is_full(&self.board) {
            return self.set_state(GameState::Draw);
        }
        self.set_state(GameState::Playing(entity.not()));
    }
}

/// A fresh session is valid, and starting keeps a session valid.
pub proof fn lemma_start_keeps_valid(s: Session)
    requires
        s.valid(),
    ensures
        Session::initial().valid(),
        s.started().valid(),
{
}

/// A line that is complete after a mark was placed on an empty cell of a grid
/// without lines passes through that cell and belongs to the player who placed
/// the mark. So it is enough to look at the lines through the last move.
pub proof fn lemma_line_needs_last_mark(b: Board, p: Entity, x: int, y: int)
    requires
        p.is_player(),
        is_vacant(b, x, y),
        !has_line(b, Entity::Computer),
        !has_line(b, Entity::Human),
    ensures
        has_line(with_mark(b, x, y, p), p) == has_line_through(with_mark(b, x, y, p), p, x, y),
        !has_line(with_mark(b, x, y, p), p.complement()),
{
}

/// Every move attempt takes a valid session to a valid session.
pub proof fn lemma_step_keeps_valid(s: Session, x: int, y: int)
    requires
        s.valid(),
        in_grid(x, y),
    ensures
        s.step(x, y).valid(),
{
    if s.state.mover() is Some && s.board[x][y] == Entity::Empty {
        let p = s.state.mover().unwrap();
        lemma_line_needs_last_mark(s.board, p, x, y);
    }
}

/// What a move attempt changes. Outside play: nothing. On an occupied cell:
/// only the phase, which asks the same player again. On an empty cell: that
/// cell, which then holds the mover's mark. The number of marks on the grid
/// never goes down, and goes up by one with each accepted move.
pub proof fn lemma_step_effect(s: Session, x: int, y: int)
    requires
        in_grid(x, y),
    ensures
        !s.state.playable() ==> s.step(x, y) == s,
        s.state.playable() && s.board[x][y] != Entity::Empty ==> s.step(x, y).board == s.board && s.step(
            x,
            y,
        ).state == GameState::Repeat(s.state.mover().unwrap()),
        s.state.playable() && s.board[x][y] == Entity::Empty ==> s.step(x, y).board == with_mark(
            s.board,
            x,
            y,
            s.state.mover().unwrap(),
        ) && !(s.step(x, y).state is Repeat) && !(s.step(x, y).state is Ready),
        occupied_count(s.step(x, y).board) >= occupied_count(s.board),
        s.valid() && s.state.playable() && s.board[x][y] == Entity::Empty ==> occupied_count(
            s.step(x, y).board,
        ) == occupied_count(s.board) + 1,
{
    if s.state.mover() is Some {
        lemma_with_mark_count(s.board, x, y, s.state.mover().unwrap());
    }
}

/// Resetting any session and starting it gives what starting a fresh session
/// gives: a blank grid with the automated player to move.
pub proof fn lemma_reset_then_start(s: Session)
    ensures
        s.reset().started() == Session::initial().started(),
        s.reset().started().state == GameState::Playing(Entity::Computer),
        s.reset().started().board == blank(),
{
}

} // verus!
