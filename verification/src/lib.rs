//! A falling-block puzzle game: the board, the pieces, the scoring rules and
//! the frame-by-frame decisions of a session, with machine-checked contracts.

pub mod board;
pub mod game;
pub mod input;
pub mod piece;
pub mod render;
pub mod session;
