//! Noughts and crosses on a 3x3 grid: the session model that applies moves and
//! detects the end of a game, and a search engine that picks the automated
//! player's move by exhaustive minimax with alpha-beta pruning.

pub mod board;
pub mod choice;
pub mod computer;
pub mod entity;
pub mod game;
pub mod opening;
pub mod play;
pub mod pruning;
pub mod search;
pub mod state;
pub mod turns;
pub mod values;

pub use board::Board;
pub use computer::Computer;
pub use entity::Entity;
pub use game::Game;
pub use state::GameState;
