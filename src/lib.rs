pub mod board;
pub mod error;
pub mod game;
pub mod search;
pub mod text;

pub use board::{Board, Cell, PlayerPick};
pub use error::GameError;
pub use game::{Game, Mode, State};
