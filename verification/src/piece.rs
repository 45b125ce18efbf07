use vstd::prelude::*;
use crate::square::Rank;

verus! {

/// The two sides.
#[derive(Clone, Copy, Debug, PartialEq, Eq, Structural, Hash)]
pub enum Color {
    White,
    Black,
}

impl Color {
    /// The opposing side.
    pub open spec fn other(self) -> Color {
        match self {
            Color::White => Color::Black,
            Color::Black => Color::White,
        }
    }

    /// The opposing side.
    pub fn opponent(self) -> (c: Color)
        ensures
            c == self.other(),
    {
        match self {
            Color::White => Color::Black,
            Color::Black => Color::White,
        }
    }

    /// Rank step of this side's pawns: `+1` for white, `-1` for black.
    pub open spec fn forward_spec(self) -> Rank {
        match self {
            Color::White => 1i8,
            Color::Black => -1i8,
        }
    }

    /// Rank on which this side's pawns start: `1` for white, `6` for black.
    pub open spec fn pawn_rank_spec(self) -> Rank {
        match self {
            Color::White => 1i8,
            Color::Black => 6i8,
        }
    }

    /// Rank on which this side's pawns promote: `7` for white, `0` for black.
    pub open spec fn last_rank_spec(self) -> Rank {
        match self {
            Color::White => 7i8,
            Color::Black => 0i8,
        }
    }

    /// Rank on which this side's king and rooks start: `0` for white, `7` for black.
    pub open spec fn home_rank_spec(self) -> Rank {
        match self {
            Color::White => 0i8,
            Color::Black => 7i8,
        }
    }

    /// Rank step of this side's pawns: `+1` for white, `-1` for black.
    #[verifier::when_used_as_spec(forward_spec)]
    pub fn forward(self) -> (r: Rank)
        ensures
            r == self.forward_spec(),
    {
        match self {
            Color::White => 1,
            Color::Black => -1,
        }
    }

    /// Rank on which this side's pawns start: `1` for white, `6` for black.
    #[verifier::when_used_as_spec(pawn_rank_spec)]
    pub fn pawn_rank(self) -> (r: Rank)
        ensures
            r == self.pawn_rank_spec(),
    {
        match self {
            Color::White => 1,
            Color::Black => 6,
        }
    }

    /// Rank on which this side's pawns promote: `7` for white, `0` for black.
    #[verifier::when_used_as_spec(last_rank_spec)]
    pub fn last_rank(self) -> (r: Rank)
        ensures
            r == self.last_rank_spec(),
    {
        match self {
            Color::White => 7,
            Color::Black => 0,
        }
    }

    /// Rank on which this side's king and rooks start: `0` for white, `7` for black.
    #[verifier::when_used_as_spec(home_rank_spec)]
    pub fn home_rank(self) -> (r: Rank)
        ensures
            r == self.home_rank_spec(),
    {
        match self {
            Color::White => 0,
            Color::Black => 7,
        }
    }
}

/// What a piece is, regardless of its side.
#[derive(Clone, Copy, Debug, PartialEq, Eq, Structural, Hash)]
pub enum Kind {
    Pawn,
    Knight,
    Bishop,
    Rook,
    Queen,
    King,
}

/// The content of a square: nothing, or one of the twelve pieces.
#[derive(Clone, Copy, Debug, PartialEq, Eq, Structural, Hash)]
pub enum Piece {
    Empty,
    WP,
    WN,
    WB,
    WR,
    WQ,
    WK,
    BP,
    BN,
    BB,
    BR,
    BQ,
    BK,
}

impl Piece {
    /// The side a piece belongs to; `None` for `Empty`.
    pub open spec fn color_spec(self) -> Option<Color> {
        match self {
            Piece::Empty => None,
            Piece::WP | Piece::WN | Piece::WB | Piece::WR | Piece::WQ | Piece::WK => Some(Color::White),
            Piece::BP | Piece::BN | Piece::BB | Piece::BR | Piece::BQ | Piece::BK => Some(Color::Black),
        }
    }

    /// The kind of a piece; `None` for `Empty`.
    pub open spec fn kind_spec(self) -> Option<Kind> {
        match self {
            Piece::Empty => None,
            Piece::WP | Piece::BP => Some(Kind::Pawn),
            Piece::WN | Piece::BN => Some(Kind::Knight),
            Piece::WB | Piece::BB => Some(Kind::Bishop),
            Piece::WR | Piece::BR => Some(Kind::Rook),
            Piece::WQ | Piece::BQ => Some(Kind::Queen),
            Piece::WK | Piece::BK => Some(Kind::King),
        }
    }

    /// The piece of the given side and kind.
    pub open spec fn of_spec(color: Color, kind: Kind) -> Piece {
        match (color, kind) {
            (Color::White, Kind::Pawn) => Piece::WP,
            (Color::White, Kind::Knight) => Piece::WN,
            (Color::White, Kind::Bishop) => Piece::WB,
            (Color::White, Kind::Rook) => Piece::WR,
            (Color::White, Kind::Queen) => Piece::WQ,
            (Color::White, Kind::King) => Piece::WK,
            (Color::Black, Kind::Pawn) => Piece::BP,
            (Color::Black, Kind::Knight) => Piece::BN,
            (Color::Black, Kind::Bishop) => Piece::BB,
            (Color::Black, Kind::Rook) => Piece::BR,
            (Color::Black, Kind::Queen) => Piece::BQ,
            (Color::Black, Kind::King) => Piece::BK,
        }
    }

    /// Whether the piece belongs to `color`.
    pub open spec fn is_color(self, color: Color) -> bool {
        self.color_spec() == Some(color)
    }

    /// Whether the piece is the `kind` of side `color`.
    pub open spec fn is(self, color: Color, kind: Kind) -> bool {
        self == Piece::of_spec(color, kind)
    }

    /// Position of the piece in the enumeration, `Empty` first.
    pub open spec fn idx(self) -> int {
        match self {
            Piece::Empty => 0,
            Piece::WP => 1,
            Piece::WN => 2,
            Piece::WB => 3,
            Piece::WR => 4,
            Piece::WQ => 5,
            Piece::WK => 6,
            Piece::BP => 7,
            Piece::BN => 8,
            Piece::BB => 9,
            Piece::BR => 10,
            Piece::BQ => 11,
            Piece::BK => 12,
        }
    }

    /// The side a piece belongs to; `None` for `Empty`.
    #[verifier::when_used_as_spec(color_spec)]
    pub fn color(self) -> (c: Option<Color>)
        ensures
            c == self.color_spec(),
    {
        match self {
            Piece::Empty => None,
            Piece::WP | Piece::WN | Piece::WB | Piece::WR | Piece::WQ | Piece::WK => Some(Color::White),
            Piece::BP | Piece::BN | Piece::BB | Piece::BR | Piece::BQ | Piece::BK => Some(Color::Black),
        }
    }

    /// The kind of a piece; `None` for `Empty`.
    #[verifier::when_used_as_spec(kind_spec)]
    pub fn kind(self) -> (k: Option<Kind>)
        ensures
            k == self.kind_spec(),
    {
        match self {
            Piece::Empty => None,
            Piece::WP | Piece::BP => Some(Kind::Pawn),
            Piece::WN | Piece::BN => Some(Kind::Knight),
            Piece::WB | Piece::BB => Some(Kind::Bishop),
            Piece::WR | Piece::BR => Some(Kind::Rook),
            Piece::WQ | Piece::BQ => Some(Kind::Queen),
            Piece::WK | Piece::BK => Some(Kind::King),
        }
    }

    /// The piece of the given side and kind.
    #[verifier::when_used_as_spec(of_spec)]
    pub fn of(color: Color, kind: Kind) -> (p: Piece)
        ensures
            p == Piece::of_spec(color, kind),
            p.color_spec() == Some(color),
            p.kind_spec() == Some(kind),
    {
        match (color, kind) {
            (Color::White, Kind::Pawn) => Piece::WP,
            (Color::White, Kind::Knight) => Piece::WN,
            (Color::White, Kind::Bishop) => Piece::WB,
            (Color::White, Kind::Rook) => Piece::WR,
            (Color::White, Kind::Queen) => Piece::WQ,
            (Color::White, Kind::King) => Piece::WK,
            (Color::Black, Kind::Pawn) => Piece::BP,
            (Color::Black, Kind::Knight) => Piece::BN,
            (Color::Black, Kind::Bishop) => Piece::BB,
            (Color::Black, Kind::Rook) => Piece::BR,
            (Color::Black, Kind::Queen) => Piece::BQ,
            (Color::Black, Kind::King) => Piece::BK,
        }
    }

    /// Whether the piece is `Empty`.
    pub fn is_empty(self) -> (b: bool)
        ensures
            b == (self == Piece::Empty),
    {
        self == Piece::Empty
    }

    /// Whether the piece belongs to `color`.
    pub fn has_color(self, color: Color) -> (b: bool)
        ensures
            b == self.is_color(color),
    {
        match self.color() {
            Some(c) => c == color,
            None => false,
        }
    }

    /// Position of the piece in the enumeration, `Empty` first.
    pub fn index(self) -> (i: usize)
        ensures
            i == self.idx(),
            i < 13,
    {
        match self {
            Piece::Empty => 0,
            Piece::WP => 1,
            Piece::WN => 2,
            Piece::WB => 3,
            Piece::WR => 4,
            Piece::WQ => 5,
            Piece::WK => 6,
            Piece::BP => 7,
            Piece::BN => 8,
            Piece::BB => 9,
            Piece::BR => 10,
            Piece::BQ => 11,
            Piece::BK => 12,
        }
    }

    /// The piece at position `i` of the enumeration, if `i` is below 13.
    pub fn from_index(i: usize) -> (p: Option<Piece>)
        ensures
            i < 13 ==> p is Some && p->Some_0.idx() == i,
            i >= 13 ==> p is None,
    {
        match i {
            0 => Some(Piece::Empty),
            1 => Some(Piece::WP),
            2 => Some(Piece::WN),
            3 => Some(Piece::WB),
            4 => Some(Piece::WR),
            5 => Some(Piece::WQ),
            6 => Some(Piece::WK),
            7 => Some(Piece::BP),
            8 => Some(Piece::BN),
            9 => Some(Piece::BB),
            10 => Some(Piece::BR),
            11 => Some(Piece::BQ),
            12 => Some(Piece::BK),
            _ => None,
        }
    }
}

/// A piece is determined by its side and kind, and `Empty` alone has neither.
pub proof fn lemma_piece_of_color_kind(p: Piece)
    ensures
        p.color_spec() is None <==> p == Piece::Empty,
        p.kind_spec() is None <==> p == Piece::Empty,
        p != Piece::Empty ==> Piece::of_spec(p.color_spec()->Some_0, p.kind_spec()->Some_0) == p,
{
}

} // verus!
