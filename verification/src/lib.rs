pub mod attack;
pub mod board;
pub mod error;
pub mod laws;
pub mod movegen;
pub mod moves;
pub mod piece;
pub mod rays;
pub mod rules;
pub mod square;
pub mod state;

pub use crate::attack::is_attacked;
pub use crate::board::{each_square, empty_board, Board};
pub use crate::error::Error;
pub use crate::moves::{CastlingRights, Move, MoveInfo};
pub use crate::piece::{Color, Kind, Piece};
pub use crate::rays::{
    direction, pseudo_moves, pseudo_moves_at, Direction, Directions, PseudoMoves, RayTables,
};
pub use crate::rules::Position;
pub use crate::square::{file, on_board, rank, square, File, Rank, Square, BOARD_SIZE};
pub use crate::state::{starting_board, State};
