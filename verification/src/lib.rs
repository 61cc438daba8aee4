//! Rules of a chess-like game played with kings alone on an 8x8 board.

pub mod address;
pub mod board;
pub mod laws;
pub mod moves;
pub mod position;
pub mod sequences;
pub mod square;

pub use address::{BoardIndex, MoveVector, SquareAddress, Vector, BOARD_SIZE};
pub use board::{Board, Moves};
pub use moves::{Move, ReversibleMove};
pub use position::Position;
pub use square::{Piece, Player, PlayerPiece, Square};
