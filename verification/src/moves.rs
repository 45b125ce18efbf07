use vstd::prelude::*;
use crate::piece::{Color, Piece};
use crate::square::Square;

verus! {

/// Which castlings are still available: for each side, towards the king's rook and towards
/// the queen's rook.
#[derive(Clone, Copy, Debug, PartialEq, Eq, Structural, Hash)]
pub struct CastlingRights {
    pub white_kside: bool,
    pub white_qside: bool,
    pub black_kside: bool,
    pub black_qside: bool,
}

impl CastlingRights {
    /// Whether `color` may still castle on the king's side.
    pub open spec fn kside_spec(self, color: Color) -> bool {
        match color {
            Color::White => self.white_kside,
            Color::Black => self.black_kside,
        }
    }

    /// Whether `color` may still castle on the queen's side.
    pub open spec fn qside_spec(self, color: Color) -> bool {
        match color {
            Color::White => self.white_qside,
            Color::Black => self.black_qside,
        }
    }

    /// Every castling available, as at the start of a game.
    pub fn all() -> (rights: CastlingRights)
        ensures
            rights == (CastlingRights {
                white_kside: true,
                white_qside: true,
                black_kside: true,
                black_qside: true,
            }),
    {
        CastlingRights { white_kside: true, white_qside: true, black_kside: true, black_qside: true }
    }

    /// No castling available.
    pub fn none() -> (rights: CastlingRights)
        ensures
            rights == (CastlingRights {
                white_kside: false,
                white_qside: false,
                black_kside: false,
                black_qside: false,
            }),
    {
        CastlingRights {
            white_kside: false,
            white_qside: false,
            black_kside: false,
            black_qside: false,
        }
    }

    /// Whether `color` may still castle on the king's side.
    #[verifier::when_used_as_spec(kside_spec)]
    pub fn kside(self, color: Color) -> (b: bool)
        ensures
            b == self.kside_spec(color),
    {
        match color {
            Color::White => self.white_kside,
            Color::Black => self.black_kside,
        }
    }

    /// Whether `color` may still castle on the queen's side.
    #[verifier::when_used_as_spec(qside_spec)]
    pub fn qside(self, color: Color) -> (b: bool)
        ensures
            b == self.qside_spec(color),
    {
        match color {
            Color::White => self.white_qside,
            Color::Black => self.black_qside,
        }
    }
}

/// What makes a move more than a piece going from one square to another.
#[derive(Clone, Copy, Debug, PartialEq, Eq, Structural, Hash)]
pub enum MoveInfo {
    /// The king castles; the rook's move is implied.
    Castled,
    /// A pawn takes, in passing, the pawn that has just advanced two squares beside it.
    EnPassant,
    /// A pawn reaches its last rank and becomes `piece`.
    Promoted { piece: Piece },
}

/// The record of one ply.
#[derive(Clone, Copy, Debug, PartialEq, Eq, Structural, Hash)]
pub struct Move {
    /// The piece that moves.
    pub piece: Piece,
    pub from: Square,
    pub to: Square,
    /// The piece taken, `Empty` if none.
    pub captured: Piece,
    pub info: Option<MoveInfo>,
    /// Whether the move attacks the opposing king.
    pub check: bool,
    /// The castling rights before the move, which taking the move back restores.
    pub rights: CastlingRights,
}

impl Move {
    /// The record with the given fields.
    pub fn new(
        piece: Piece,
        from: Square,
        to: Square,
        captured: Piece,
        info: Option<MoveInfo>,
        check: bool,
        rights: CastlingRights,
    ) -> (m: Move)
        ensures
            m == (Move { piece, from, to, captured, info, check, rights }),
    {
        Move { piece, from, to, captured, info, check, rights }
    }
}

} // verus!
