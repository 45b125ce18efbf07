use vstd::prelude::*;
use crate::error::Error;

verus! {

/// A column of the board, `0` (a) to `7` (h). Signed so that direction offsets add naturally.
pub type File = i8;

/// A row of the board, `0` (first rank) to `7` (eighth rank).
pub type Rank = i8;

/// Number of files, and of ranks.
pub const BOARD_SIZE: File = 8;

/// The 64 squares in rank-major order: `A1` is 0, `H1` is 7, `A2` is 8, `H8` is 63.
#[derive(Clone, Copy, Debug, PartialEq, Eq, Structural, Hash)]
pub enum Square {
    A1, B1, C1, D1, E1, F1, G1, H1,
    A2, B2, C2, D2, E2, F2, G2, H2,
    A3, B3, C3, D3, E3, F3, G3, H3,
    A4, B4, C4, D4, E4, F4, G4, H4,
    A5, B5, C5, D5, E5, F5, G5, H5,
    A6, B6, C6, D6, E6, F6, G6, H6,
    A7, B7, C7, D7, E7, F7, G7, H7,
    A8, B8, C8, D8, E8, F8, G8, H8,
}

impl Square {
    /// Position of the square in rank-major order.
    pub open spec fn idx(self) -> int {
        match self {
            Square::A1 => 0,
            Square::B1 => 1,
            Square::C1 => 2,
            Square::D1 => 3,
            Square::E1 => 4,
            Square::F1 => 5,
            Square::G1 => 6,
            Square::H1 => 7,
            Square::A2 => 8,
            Square::B2 => 9,
            Square::C2 => 10,
            Square::D2 => 11,
            Square::E2 => 12,
            Square::F2 => 13,
            Square::G2 => 14,
            Square::H2 => 15,
            Square::A3 => 16,
            Square::B3 => 17,
            Square::C3 => 18,
            Square::D3 => 19,
            Square::E3 => 20,
            Square::F3 => 21,
            Square::G3 => 22,
            Square::H3 => 23,
            Square::A4 => 24,
            Square::B4 => 25,
            Square::C4 => 26,
            Square::D4 => 27,
            Square::E4 => 28,
            Square::F4 => 29,
            Square::G4 => 30,
            Square::H4 => 31,
            Square::A5 => 32,
            Square::B5 => 33,
            Square::C5 => 34,
            Square::D5 => 35,
            Square::E5 => 36,
            Square::F5 => 37,
            Square::G5 => 38,
            Square::H5 => 39,
            Square::A6 => 40,
            Square::B6 => 41,
            Square::C6 => 42,
            Square::D6 => 43,
            Square::E6 => 44,
            Square::F6 => 45,
            Square::G6 => 46,
            Square::H6 => 47,
            Square::A7 => 48,
            Square::B7 => 49,
            Square::C7 => 50,
            Square::D7 => 51,
            Square::E7 => 52,
            Square::F7 => 53,
            Square::G7 => 54,
            Square::H7 => 55,
            Square::A8 => 56,
            Square::B8 => 57,
            Square::C8 => 58,
            Square::D8 => 59,
            Square::E8 => 60,
            Square::F8 => 61,
            Square::G8 => 62,
            Square::H8 => 63,
        }
    }

    /// The square at a rank-major position; positions outside `0..64` are mapped to `A1`.
    pub open spec fn at(i: int) -> Square {
        if i == 1 {
            Square::B1
        } else if i == 2 {
            Square::C1
        } else if i == 3 {
            Square::D1
        } else if i == 4 {
            Square::E1
        } else if i == 5 {
            Square::F1
        } else if i == 6 {
            Square::G1
        } else if i == 7 {
            Square::H1
        } else if i == 8 {
            Square::A2
        } else if i == 9 {
            Square::B2
        } else if i == 10 {
            Square::C2
        } else if i == 11 {
            Square::D2
        } else if i == 12 {
            Square::E2
        } else if i == 13 {
            Square::F2
        } else if i == 14 {
            Square::G2
        } else if i == 15 {
            Square::H2
        } else if i == 16 {
            Square::A3
        } else if i == 17 {
            Square::B3
        } else if i == 18 {
            Square::C3
        } else if i == 19 {
            Square::D3
        } else if i == 20 {
            Square::E3
        } else if i == 21 {
            Square::F3
        } else if i == 22 {
            Square::G3
        } else if i == 23 {
            Square::H3
        } else if i == 24 {
            Square::A4
        } else if i == 25 {
            Square::B4
        } else if i == 26 {
            Square::C4
        } else if i == 27 {
            Square::D4
        } else if i == 28 {
            Square::E4
        } else if i == 29 {
            Square::F4
        } else if i == 30 {
            Square::G4
        } else if i == 31 {
            Square::H4
        } else if i == 32 {
            Square::A5
        } else if i == 33 {
            Square::B5
        } else if i == 34 {
            Square::C5
        } else if i == 35 {
            Square::D5
        } else if i == 36 {
            Square::E5
        } else if i == 37 {
            Square::F5
        } else if i == 38 {
            Square::G5
        } else if i == 39 {
            Square::H5
        } else if i == 40 {
            Square::A6
        } else if i == 41 {
            Square::B6
        } else if i == 42 {
            Square::C6
        } else if i == 43 {
            Square::D6
        } else if i == 44 {
            Square::E6
        } else if i == 45 {
            Square::F6
        } else if i == 46 {
            Square::G6
        } else if i == 47 {
            Square::H6
        } else if i == 48 {
            Square::A7
        } else if i == 49 {
            Square::B7
        } else if i == 50 {
            Square::C7
        } else if i == 51 {
            Square::D7
        } else if i == 52 {
            Square::E7
        } else if i == 53 {
            Square::F7
        } else if i == 54 {
            Square::G7
        } else if i == 55 {
            Square::H7
        } else if i == 56 {
            Square::A8
        } else if i == 57 {
            Square::B8
        } else if i == 58 {
            Square::C8
        } else if i == 59 {
            Square::D8
        } else if i == 60 {
            Square::E8
        } else if i == 61 {
            Square::F8
        } else if i == 62 {
            Square::G8
        } else if i == 63 {
            Square::H8
        } else {
            Square::A1
        }
    }

    /// The square whose file is `f` and whose rank is `r`.
    pub open spec fn at_coords(f: int, r: int) -> Square {
        Square::at(r * 8 + f)
    }

    /// File of the square as a mathematical integer.
    pub open spec fn f(self) -> int {
        self.idx() % 8
    }

    /// Rank of the square as a mathematical integer.
    pub open spec fn r(self) -> int {
        self.idx() / 8
    }

    /// Rank-major position of the square.
    pub fn index(self) -> (i: usize)
        ensures
            i == self.idx(),
            i < 64,
    {
        match self {
            Square::A1 => 0,
            Square::B1 => 1,
            Square::C1 => 2,
            Square::D1 => 3,
            Square::E1 => 4,
            Square::F1 => 5,
            Square::G1 => 6,
            Square::H1 => 7,
            Square::A2 => 8,
            Square::B2 => 9,
            Square::C2 => 10,
            Square::D2 => 11,
            Square::E2 => 12,
            Square::F2 => 13,
            Square::G2 => 14,
            Square::H2 => 15,
            Square::A3 => 16,
            Square::B3 => 17,
            Square::C3 => 18,
            Square::D3 => 19,
            Square::E3 => 20,
            Square::F3 => 21,
            Square::G3 => 22,
            Square::H3 => 23,
            Square::A4 => 24,
            Square::B4 => 25,
            Square::C4 => 26,
            Square::D4 => 27,
            Square::E4 => 28,
            Square::F4 => 29,
            Square::G4 => 30,
            Square::H4 => 31,
            Square::A5 => 32,
            Square::B5 => 33,
            Square::C5 => 34,
            Square::D5 => 35,
            Square::E5 => 36,
            Square::F5 => 37,
            Square::G5 => 38,
            Square::H5 => 39,
            Square::A6 => 40,
            Square::B6 => 41,
            Square::C6 => 42,
            Square::D6 => 43,
            Square::E6 => 44,
            Square::F6 => 45,
            Square::G6 => 46,
            Square::H6 => 47,
            Square::A7 => 48,
            Square::B7 => 49,
            Square::C7 => 50,
            Square::D7 => 51,
            Square::E7 => 52,
            Square::F7 => 53,
            Square::G7 => 54,
            Square::H7 => 55,
            Square::A8 => 56,
            Square::B8 => 57,
            Square::C8 => 58,
            Square::D8 => 59,
            Square::E8 => 60,
            Square::F8 => 61,
            Square::G8 => 62,
            Square::H8 => 63,
        }
    }

    /// The square at rank-major position `i`, if `i` is below 64.
    pub fn from_index(i: usize) -> (s: Option<Square>)
        ensures
            s == (if i < 64 { Some(Square::at(i as int)) } else { None }),
    {
        match i {
            0 => Some(Square::A1),
            1 => Some(Square::B1),
            2 => Some(Square::C1),
            3 => Some(Square::D1),
            4 => Some(Square::E1),
            5 => Some(Square::F1),
            6 => Some(Square::G1),
            7 => Some(Square::H1),
            8 => Some(Square::A2),
            9 => Some(Square::B2),
            10 => Some(Square::C2),
            11 => Some(Square::D2),
            12 => Some(Square::E2),
            13 => Some(Square::F2),
            14 => Some(Square::G2),
            15 => Some(Square::H2),
            16 => Some(Square::A3),
            17 => Some(Square::B3),
            18 => Some(Square::C3),
            19 => Some(Square::D3),
            20 => Some(Square::E3),
            21 => Some(Square::F3),
            22 => Some(Square::G3),
            23 => Some(Square::H3),
            24 => Some(Square::A4),
            25 => Some(Square::B4),
            26 => Some(Square::C4),
            27 => Some(Square::D4),
            28 => Some(Square::E4),
            29 => Some(Square::F4),
            30 => Some(Square::G4),
            31 => Some(Square::H4),
            32 => Some(Square::A5),
            33 => Some(Square::B5),
            34 => Some(Square::C5),
            35 => Some(Square::D5),
            36 => Some(Square::E5),
            37 => Some(Square::F5),
            38 => Some(Square::G5),
            39 => Some(Square::H5),
            40 => Some(Square::A6),
            41 => Some(Square::B6),
            42 => Some(Square::C6),
            43 => Some(Square::D6),
            44 => Some(Square::E6),
            45 => Some(Square::F6),
            46 => Some(Square::G6),
            47 => Some(Square::H6),
            48 => Some(Square::A7),
            49 => Some(Square::B7),
            50 => Some(Square::C7),
            51 => Some(Square::D7),
            52 => Some(Square::E7),
            53 => Some(Square::F7),
            54 => Some(Square::G7),
            55 => Some(Square::H7),
            56 => Some(Square::A8),
            57 => Some(Square::B8),
            58 => Some(Square::C8),
            59 => Some(Square::D8),
            60 => Some(Square::E8),
            61 => Some(Square::F8),
            62 => Some(Square::G8),
            63 => Some(Square::H8),
            _ => None,
        }
    }
}

/// Every square has a position in `0..64`, and `at` inverts `idx`.
pub proof fn lemma_idx_at(s: Square)
    ensures
        0 <= s.idx() < 64,
        Square::at(s.idx()) == s,
        0 <= s.f() < 8,
        0 <= s.r() < 8,
        Square::at_coords(s.f(), s.r()) == s,
{
}

/// `idx` inverts `at` on `0..64`.
pub proof fn lemma_at_idx(i: int)
    requires
        0 <= i < 64,
    ensures
        Square::at(i).idx() == i,
{
}

/// File and rank of the square built from on-board coordinates.
pub proof fn lemma_at_coords(f: int, r: int)
    requires
        0 <= f < 8,
        0 <= r < 8,
    ensures
        Square::at_coords(f, r).idx() == r * 8 + f,
        Square::at_coords(f, r).f() == f,
        Square::at_coords(f, r).r() == r,
{
    lemma_at_idx(r * 8 + f);
}

/// Two squares with the same file and rank are the same square: files and ranks in `[0, 7]`
/// and squares correspond one to one.
pub proof fn lemma_coords_injective(a: Square, b: Square)
    requires
        a.f() == b.f(),
        a.r() == b.r(),
    ensures
        a == b,
{
    lemma_idx_at(a);
    lemma_idx_at(b);
}

/// Whether `(file, rank)` names a square of the board.
pub open spec fn on_board_spec(file: File, rank: Rank) -> bool {
    0 <= file <= 7 && 0 <= rank <= 7
}

/// Whether `(f, r)` names a square of the board, over mathematical integers.
pub open spec fn inside(f: int, r: int) -> bool {
    0 <= f <= 7 && 0 <= r <= 7
}

/// True iff both coordinates are in `[0, 7]`.
#[verifier::when_used_as_spec(on_board_spec)]
pub fn on_board(file: File, rank: Rank) -> (b: bool)
    ensures
        b == on_board_spec(file, rank),
        b == inside(file as int, rank as int),
{
    0 <= file && file <= 7 && 0 <= rank && rank <= 7
}

/// The file of a square.
pub open spec fn file_spec(square: Square) -> File {
    square.f() as File
}

/// The rank of a square.
pub open spec fn rank_spec(square: Square) -> Rank {
    square.r() as Rank
}

/// The file of a square, `0..=7`.
#[verifier::when_used_as_spec(file_spec)]
pub fn file(square: Square) -> (f: File)
    ensures
        f == file_spec(square),
        f == square.idx() % 8,
        0 <= f <= 7,
{
    (square.index() % (BOARD_SIZE as usize)) as File
}

/// The rank of a square, `0..=7`.
#[verifier::when_used_as_spec(rank_spec)]
pub fn rank(square: Square) -> (r: Rank)
    ensures
        r == rank_spec(square),
        r == square.idx() / 8,
        0 <= r <= 7,
{
    (square.index() / (BOARD_SIZE as usize)) as Rank
}

/// The square with the given file and rank, or `OutOfBounds` off the board.
pub open spec fn square_spec(file: File, rank: Rank) -> Result<Square, Error> {
    if on_board_spec(file, rank) {
        Ok(Square::at_coords(file as int, rank as int))
    } else {
        Err(Error::OutOfBounds)
    }
}

/// The square with the given on-board coordinates.
pub fn square_at(file: File, rank: Rank) -> (s: Square)
    requires
        on_board_spec(file, rank),
    ensures
        s == Square::at_coords(file as int, rank as int),
        s.idx() == rank * 8 + file,
        s.f() == file,
        s.r() == rank,
{
    let size: usize = BOARD_SIZE as usize;
    assert(size == 8);
    let i: usize = (rank as usize) * size + (file as usize);
    proof {
        lemma_at_coords(file as int, rank as int);
    }
    Square::from_index(i).unwrap()
}

/// The square with the given file and rank; `OutOfBounds` when either is outside `[0, 7]`.
#[verifier::when_used_as_spec(square_spec)]
pub fn square(file: File, rank: Rank) -> (s: Result<Square, Error>)
    ensures
        s == square_spec(file, rank),
        on_board_spec(file, rank) ==> s is Ok && s->Ok_0.idx() == rank * 8 + file,
{
    if on_board(file, rank) {
        Ok(square_at(file, rank))
    } else {
        Err(Error::OutOfBounds)
    }
}

/// Building a square from the file and rank of `s` gives `s` back.
pub proof fn lemma_square_of_file_rank(s: Square)
    ensures
        square(file(s), rank(s)) == Ok::<Square, Error>(s),
{
    lemma_idx_at(s);
}

/// The file and rank of the square built from `(f, r)` are `f` and `r`.
pub proof fn lemma_file_rank_of_square(f: File, r: Rank)
    requires
        0 <= f <= 7,
        0 <= r <= 7,
    ensures
        square(f, r) is Ok,
        file(square(f, r)->Ok_0) == f,
        rank(square(f, r)->Ok_0) == r,
{
    lemma_at_coords(f as int, r as int);
}

} // verus!
