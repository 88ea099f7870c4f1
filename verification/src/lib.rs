//! A two-player 3x3 board game: the turn state machine, win and tie
//! detection, and the compact textual codec used to persist and transmit
//! game state.

pub mod board;
pub mod error;
pub mod game;
pub mod mark;
pub mod state;

pub use board::Board;
pub use game::Game;
pub use mark::Mark;
pub use state::State;
