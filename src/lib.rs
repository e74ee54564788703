//! A small chess rules engine: board state, pseudo-legal move generation for
//! pawns and knights, move application, and long algebraic notation.

pub mod coordinate;
pub mod piece;
pub mod chess_move;
pub mod board;
pub mod movegen;
pub mod notation;
pub mod laws;
