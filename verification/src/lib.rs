//! A verified rules engine for standard chess.
//!
//! The engine owns the board state, decides which moves are legal for each
//! piece type, detects check, and classifies finished games (checkmate,
//! stalemate). It is a pure state-transition system over an 8x8 board:
//! rendering and input handling live outside the library.

pub mod analysis;
pub mod attack;
pub mod board;
pub mod execute;
pub mod laws;
pub mod moves;
pub mod piece;
pub mod rules;

pub use board::Board;
pub use piece::ColorChess;
pub use piece::Piece;
pub use piece::PieceType;
