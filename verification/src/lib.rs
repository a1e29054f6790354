//! A two-player chess move engine: board state, move-legality checking, and
//! the coordinate-notation codec, with machine-checked contracts.

pub mod chess;
pub mod fen;
pub mod mover;
pub mod text;

pub use chess::Board;
