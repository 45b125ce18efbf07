use vstd::prelude::*;
use crate::square::Square;

verus! {

/// One value of type `T` for each of the 64 squares.
#[derive(Clone, Copy, Debug)]
pub struct Board<T> {
    squares: [T; 64],
}

impl<T> View for Board<T> {
    type V = Seq<T>;

    /// The 64 values in rank-major order.
    closed spec fn view(&self) -> Seq<T> {
        self.squares@
    }
}

impl<T> Board<T> {
    /// The value held for `sq`.
    pub open spec fn at(&self, sq: Square) -> T {
        self@[sq.idx()]
    }

    /// A board holding `squares[i]` on the square at rank-major position `i`.
    pub fn new(squares: [T; 64]) -> (b: Self)
        ensures
            b@ == squares@,
    {
        Board { squares }
    }

    /// The value held for `sq`.
    pub fn get(&self, sq: Square) -> (v: &T)
        ensures
            *v == self.at(sq),
    {
        &self.squares[sq.index()]
    }

    /// Replaces the value held for `sq` and leaves the other squares as they were.
    pub fn set(&mut self, sq: Square, v: T)
        ensures
            final(self)@ == old(self)@.update(sq.idx(), v),
    {
        let i = sq.index();
        self.squares[i] = v;
    }
}

/// A board has exactly 64 entries.
pub proof fn lemma_board_len<T>(b: Board<T>)
    ensures
        b@.len() == 64,
{
}

/// The board that holds `empty` on every square.
pub fn empty_board<T: Copy>(empty: T) -> (b: Board<T>)
    ensures
        forall|sq: Square| #[trigger] b.at(sq) == empty,
        b@ == Seq::new(64, |i: int| empty),
{
    let b = Board::new([empty;64]);
    assert(b@ =~= Seq::new(64, |i: int| empty));
    b
}

/// The board that holds, for every square, what `f` returns for it.
pub fn each_square<T, F: Fn(Square) -> T>(f: F) -> (b: Board<T>)
    requires
        forall|sq: Square| call_requires(f, (sq,)),
    ensures
        forall|sq: Square| call_ensures(f, (sq,), #[trigger] b.at(sq)),
{
    Board::new(
        [
            f(Square::A1), f(Square::B1), f(Square::C1), f(Square::D1), f(Square::E1), f(Square::F1), f(Square::G1), f(Square::H1),
            f(Square::A2), f(Square::B2), f(Square::C2), f(Square::D2), f(Square::E2), f(Square::F2), f(Square::G2), f(Square::H2),
            f(Square::A3), f(Square::B3), f(Square::C3), f(Square::D3), f(Square::E3), f(Square::F3), f(Square::G3), f(Square::H3),
            f(Square::A4), f(Square::B4), f(Square::C4), f(Square::D4), f(Square::E4), f(Square::F4), f(Square::G4), f(Square::H4),
            f(Square::A5), f(Square::B5), f(Square::C5), f(Square::D5), f(Square::E5), f(Square::F5), f(Square::G5), f(Square::H5),
            f(Square::A6), f(Square::B6), f(Square::C6), f(Square::D6), f(Square::E6), f(Square::F6), f(Square::G6), f(Square::H6),
            f(Square::A7), f(Square::B7), f(Square::C7), f(Square::D7), f(Square::E7), f(Square::F7), f(Square::G7), f(Square::H7),
            f(Square::A8), f(Square::B8), f(Square::C8), f(Square::D8), f(Square::E8), f(Square::F8), f(Square::G8), f(Square::H8),
        ],
    )
}

} // verus!
