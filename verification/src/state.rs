//! The phases of a game session.

use crate::entity::Entity;
use vstd::prelude::*;

verus! {

/// The phase of a game session.
#[derive(Clone, Copy, Debug, PartialEq, Eq, Structural)]
pub enum GameState {
    /// No move has been made and play has not been started.
    Ready,
    /// Normal play: the player named moves next.
    Playing(Entity),
    /// The last attempt of the player named aimed at an occupied cell; the
    /// same player moves again.
    Repeat(Entity),
    /// The player named has completed a line.
    Win(Entity),
    /// The grid is full and nobody has completed a line.
    Draw,
}

impl Default for GameState {
    fn default() -> (s: GameState)
        ensures
            s == GameState::Ready,
    {
        GameState::Ready
    }
}

impl GameState {
    /// The game has ended: it was won or drawn.
    pub open spec fn finished(self) -> bool {
        self is Win || self is Draw
    }

    /// A move is accepted in this phase.
    pub open spec fn playable(self) -> bool {
        self is Playing || self is Repeat
    }

    /// The player whose move is awaited, where the phase is playable.
    pub open spec fn mover(self) -> Option<Entity> {
        match self {
            GameState::Playing(p) => Some(p),
            GameState::Repeat(p) => Some(p),
            _ => None,
        }
    }

    pub fn is_finished(&self) -> (b: bool)
        ensures
            b == self.finished(),
    {
        matches!(self, GameState::Draw | GameState::Win(_))
    }

    pub fn is_playable(&self) -> (b: bool)
        ensures
            b == self.playable(),
    {
        matches!(self, GameState::Playing(_) | GameState::Repeat(_))
    }
}

} // verus!
