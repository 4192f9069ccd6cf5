//! A tic-tac-toe move generator and game-state engine built on bitboards.
//!
//! Each player's marks are held in a nine-bit integer. Positions are
//! immutable values: making or taking back a move builds a new state.

pub mod moves;
pub mod board;
pub mod state;
pub mod laws;
