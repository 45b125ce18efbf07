use vstd::prelude::*;
use crate::attack::{attacked, attacks, clear, pawn_attack, piece_at};
use crate::moves::{CastlingRights, Move, MoveInfo};
use crate::piece::{Color, Kind, Piece};
use crate::rays::{bishop_directions, knight_directions, queen_directions, rays, rook_directions};
use crate::square::{inside, Square};

verus! {

/// What a game state amounts to: the 64 pieces in rank-major order, the castlings still
/// available, and the moves played so far.
pub struct Position {
    pub board: Seq<Piece>,
    pub rights: CastlingRights,
    pub history: Seq<Move>,
}

impl Position {
    /// The side to move: white after an even number of moves.
    pub open spec fn side(self) -> Color {
        if self.history.len() % 2 == 0 {
            Color::White
        } else {
            Color::Black
        }
    }

    /// The move played last, if any.
    pub open spec fn last(self) -> Option<Move> {
        if self.history.len() == 0 {
            None
        } else {
            Some(self.history.last())
        }
    }
}

/// The placement `b` with `p` on `sq`.
pub open spec fn put(b: Seq<Piece>, sq: Square, p: Piece) -> Seq<Piece> {
    b.update(sq.idx(), p)
}

/// The move of the piece on `from` to `to` that takes whatever stands there.
pub open spec fn plain(b: Seq<Piece>, rights: CastlingRights, from: Square, to: Square) -> Move {
    Move {
        piece: piece_at(b, from),
        from,
        to,
        captured: piece_at(b, to),
        info: None,
        check: false,
        rights,
    }
}

/// The moves of the piece on `from` along one ray: onto each empty square in turn, and onto
/// the first occupied one if it holds a piece of the other side.
pub open spec fn ray_moves(b: Seq<Piece>, rights: CastlingRights, from: Square, line: Seq<Square>) -> Seq<
    Move,
>
    decreases line.len(),
{
    if line.len() == 0 {
        Seq::empty()
    } else if piece_at(b, line[0]) == Piece::Empty {
        seq![plain(b, rights, from, line[0])] + ray_moves(b, rights, from, line.skip(1))
    } else if piece_at(b, line[0]).color_spec() == piece_at(b, from).color_spec() {
        Seq::empty()
    } else {
        seq![plain(b, rights, from, line[0])]
    }
}

/// The moves of the piece on `from` along the rays `rs`, ray after ray.
pub open spec fn table_moves(
    b: Seq<Piece>,
    rights: CastlingRights,
    from: Square,
    rs: Seq<Seq<Square>>,
) -> Seq<Move>
    decreases rs.len(),
{
    if rs.len() == 0 {
        Seq::empty()
    } else {
        table_moves(b, rights, from, rs.drop_last()) + ray_moves(b, rights, from, rs.last())
    }
}

/// The move of a pawn of `c` that becomes `kind` on reaching `to`.
pub open spec fn promotion(
    c: Color,
    rights: CastlingRights,
    from: Square,
    to: Square,
    captured: Piece,
    kind: Kind,
) -> Move {
    Move {
        piece: Piece::of_spec(c, Kind::Pawn),
        from,
        to,
        captured,
        info: Some(MoveInfo::Promoted { piece: Piece::of_spec(c, kind) }),
        check: false,
        rights,
    }
}

/// The moves by which a pawn of `c` arrives on `to`: one, or on its last rank one for each
/// piece it may become, in the order knight, bishop, rook, queen.
pub open spec fn arrivals(c: Color, rights: CastlingRights, from: Square, to: Square, captured: Piece) -> Seq<
    Move,
> {
    if to.r() == c.last_rank() {
        seq![
            promotion(c, rights, from, to, captured, Kind::Knight),
            promotion(c, rights, from, to, captured, Kind::Bishop),
            promotion(c, rights, from, to, captured, Kind::Rook),
            promotion(c, rights, from, to, captured, Kind::Queen),
        ]
    } else {
        seq![
            Move {
                piece: Piece::of_spec(c, Kind::Pawn),
                from,
                to,
                captured,
                info: None,
                check: false,
                rights,
            },
        ]
    }
}

/// The advances of a pawn of `c` on `from`: one square if it is empty, and two from the
/// pawn's starting rank if both are empty.
pub open spec fn pawn_pushes(b: Seq<Piece>, rights: CastlingRights, c: Color, from: Square) -> Seq<Move> {
    let f = from.f();
    let r1 = from.r() + c.forward();
    let r2 = r1 + c.forward();
    if inside(f, r1) && piece_at(b, Square::at_coords(f, r1)) == Piece::Empty {
        arrivals(c, rights, from, Square::at_coords(f, r1), Piece::Empty) + (if from.r()
            == c.pawn_rank() && piece_at(b, Square::at_coords(f, r2)) == Piece::Empty {
            seq![
                Move {
                    piece: Piece::of_spec(c, Kind::Pawn),
                    from,
                    to: Square::at_coords(f, r2),
                    captured: Piece::Empty,
                    info: None,
                    check: false,
                    rights,
                },
            ]
        } else {
            Seq::empty()
        })
    } else {
        Seq::empty()
    }
}

/// The capture of a pawn of `c` on `from` towards the file `side` files away, if a piece of
/// the other side stands there.
pub open spec fn pawn_capture(b: Seq<Piece>, rights: CastlingRights, c: Color, from: Square, side: int) -> Seq<
    Move,
> {
    let f = from.f() + side;
    let r = from.r() + c.forward();
    if inside(f, r) && piece_at(b, Square::at_coords(f, r)).is_color(c.other()) {
        arrivals(c, rights, from, Square::at_coords(f, r), piece_at(b, Square::at_coords(f, r)))
    } else {
        Seq::empty()
    }
}

/// Whether `m` is the advance of a pawn of `c` by two squares from its starting rank.
pub open spec fn double_push(c: Color, m: Move) -> bool {
    &&& m.piece == Piece::of_spec(c, Kind::Pawn)
    &&& m.from.f() == m.to.f()
    &&& m.from.r() == c.pawn_rank()
    &&& m.to.r() == c.pawn_rank() + 2 * c.forward()
}

/// The capture in passing of a pawn of `c` on `from` towards the file `side` files away: the
/// last move was the two-square advance of a pawn that now stands beside `from` on that file,
/// and the square behind that pawn is empty.
pub open spec fn en_passant(
    b: Seq<Piece>,
    rights: CastlingRights,
    last: Option<Move>,
    c: Color,
    from: Square,
    side: int,
) -> Seq<Move> {
    let f = from.f() + side;
    let r = from.r() + c.forward();
    if last matches Some(l) && double_push(c.other(), l) && l.to.f() == f && l.to.r() == from.r() && piece_at(
        b,
        l.to,
    ) == Piece::of_spec(c.other(), Kind::Pawn) && piece_at(b, Square::at_coords(f, r)) == Piece::Empty {
        seq![
            Move {
                piece: Piece::of_spec(c, Kind::Pawn),
                from,
                to: Square::at_coords(f, r),
                captured: Piece::of_spec(c.other(), Kind::Pawn),
                info: Some(MoveInfo::EnPassant),
                check: false,
                rights,
            },
        ]
    } else {
        Seq::empty()
    }
}

/// The moves of a pawn of `c` on `from`: advances, captures to either side, captures in passing.
pub open spec fn pawn_moves(
    b: Seq<Piece>,
    rights: CastlingRights,
    last: Option<Move>,
    c: Color,
    from: Square,
) -> Seq<Move> {
    pawn_pushes(b, rights, c, from) + pawn_capture(b, rights, c, from, -1) + pawn_capture(
        b,
        rights,
        c,
        from,
        1,
    ) + en_passant(b, rights, last, c, from, -1) + en_passant(b, rights, last, c, from, 1)
}

/// The square on which the king of `c` starts.
pub open spec fn king_home(c: Color) -> Square {
    Square::at_coords(4, c.home_rank() as int)
}

/// The square on which the rook of `c` on the given side starts.
pub open spec fn rook_home(c: Color, kside: bool) -> Square {
    Square::at_coords(if kside { 7 } else { 0 }, c.home_rank() as int)
}

/// The square the king of `c` crosses when it castles on the given side.
pub open spec fn king_transit(c: Color, kside: bool) -> Square {
    Square::at_coords(if kside { 5 } else { 3 }, c.home_rank() as int)
}

/// The square on which the king of `c` lands when it castles on the given side.
pub open spec fn king_castled(c: Color, kside: bool) -> Square {
    Square::at_coords(if kside { 6 } else { 2 }, c.home_rank() as int)
}

/// Whether `c` may castle on the given side: the right is intact, king and rook stand on
/// their starting squares with nothing between them, and the other side attacks neither the
/// king's square nor the square it crosses nor the square it lands on.
pub open spec fn may_castle(b: Seq<Piece>, rights: CastlingRights, c: Color, kside: bool) -> bool {
    &&& if kside { rights.kside(c) } else { rights.qside(c) }
    &&& piece_at(b, king_home(c)) == Piece::of_spec(c, Kind::King)
    &&& piece_at(b, rook_home(c, kside)) == Piece::of_spec(c, Kind::Rook)
    &&& clear(b, king_home(c), rook_home(c, kside))
    &&& !attacked(b, king_home(c), c.other())
    &&& !attacked(b, king_transit(c, kside), c.other())
    &&& !attacked(b, king_castled(c, kside), c.other())
}

/// The castling of `c` on the given side, if `c` may castle there.
pub open spec fn castle(b: Seq<Piece>, rights: CastlingRights, c: Color, kside: bool) -> Seq<Move> {
    if may_castle(b, rights, c, kside) {
        seq![
            Move {
                piece: Piece::of_spec(c, Kind::King),
                from: king_home(c),
                to: king_castled(c, kside),
                captured: Piece::Empty,
                info: Some(MoveInfo::Castled),
                check: false,
                rights,
            },
        ]
    } else {
        Seq::empty()
    }
}

/// The moves of the king of `c` on `from`: its steps, then castling on the king's side and on
/// the queen's side.
pub open spec fn king_moves(b: Seq<Piece>, rights: CastlingRights, c: Color, from: Square) -> Seq<Move> {
    table_moves(b, rights, from, rays(true, from, queen_directions())) + (if from == king_home(c) {
        castle(b, rights, c, true) + castle(b, rights, c, false)
    } else {
        Seq::empty()
    })
}

/// The moves that the piece on `from` may make by the way it moves and by what the squares
/// hold, if it belongs to `c`; whether they leave the king of `c` attacked is not looked at.
pub open spec fn moves_from(
    b: Seq<Piece>,
    rights: CastlingRights,
    last: Option<Move>,
    c: Color,
    from: Square,
) -> Seq<Move> {
    if !piece_at(b, from).is_color(c) {
        Seq::empty()
    } else {
        match piece_at(b, from).kind_spec() {
            None => Seq::empty(),
            Some(Kind::Pawn) => pawn_moves(b, rights, last, c, from),
            Some(Kind::Knight) => table_moves(b, rights, from, rays(true, from, knight_directions())),
            Some(Kind::Bishop) => table_moves(b, rights, from, rays(false, from, bishop_directions())),
            Some(Kind::Rook) => table_moves(b, rights, from, rays(false, from, rook_directions())),
            Some(Kind::Queen) => table_moves(b, rights, from, rays(false, from, queen_directions())),
            Some(Kind::King) => king_moves(b, rights, c, from),
        }
    }
}

/// The moves of the pieces of `c` on the first `n` squares, square after square.
pub open spec fn moves_upto(
    b: Seq<Piece>,
    rights: CastlingRights,
    last: Option<Move>,
    c: Color,
    n: nat,
) -> Seq<Move>
    decreases n,
{
    if n == 0 {
        Seq::empty()
    } else {
        moves_upto(b, rights, last, c, (n - 1) as nat) + moves_from(
            b,
            rights,
            last,
            c,
            Square::at(n - 1),
        )
    }
}

/// The piece that stands on the destination once `m` is made.
pub open spec fn placed(m: Move) -> Piece {
    match m.info {
        Some(MoveInfo::Promoted { piece }) => piece,
        _ => m.piece,
    }
}

/// The square of the pawn that `m` takes in passing.
pub open spec fn passed(m: Move) -> Square {
    Square::at_coords(m.to.f(), m.from.r())
}

/// The square the rook leaves when the king castles by `m`.
pub open spec fn rook_from(m: Move) -> Square {
    Square::at_coords(if m.to.f() > m.from.f() { 7 } else { 0 }, m.from.r())
}

/// The square the rook reaches when the king castles by `m`.
pub open spec fn rook_to(m: Move) -> Square {
    Square::at_coords(if m.to.f() > m.from.f() { 5 } else { 3 }, m.from.r())
}

/// The rook of the side that makes `m`.
pub open spec fn rook_of(m: Move) -> Piece {
    match m.piece.color_spec() {
        Some(c) => Piece::of_spec(c, Kind::Rook),
        None => Piece::Empty,
    }
}

/// The placement after `m`: the piece leaves `from` and stands on `to`, as the piece it
/// promotes to if it does; a pawn taken in passing leaves its square; in castling the rook
/// goes to the square the king has crossed.
pub open spec fn apply_board(b: Seq<Piece>, m: Move) -> Seq<Piece> {
    let moved = put(put(b, m.from, Piece::Empty), m.to, placed(m));
    match m.info {
        Some(MoveInfo::EnPassant) => put(moved, passed(m), Piece::Empty),
        Some(MoveInfo::Castled) => put(put(moved, rook_from(m), Piece::Empty), rook_to(m), rook_of(m)),
        _ => moved,
    }
}

/// The placement before `m`, from the placement after it.
pub open spec fn revert_board(b: Seq<Piece>, m: Move) -> Seq<Piece> {
    match m.info {
        Some(MoveInfo::EnPassant) => put(
            put(put(b, m.to, Piece::Empty), m.from, m.piece),
            passed(m),
            m.captured,
        ),
        Some(MoveInfo::Castled) => put(
            put(put(put(b, m.to, m.captured), m.from, m.piece), rook_to(m), Piece::Empty),
            rook_from(m),
            rook_of(m),
        ),
        _ => put(put(b, m.to, m.captured), m.from, m.piece),
    }
}

/// Whether the move `m` ends the castling right of `c` on the given side: the king moves, the
/// rook leaves its starting square, or the rook is taken there.
pub open spec fn ends_right(m: Move, c: Color, kside: bool) -> bool {
    ||| m.piece == Piece::of_spec(c, Kind::King)
    ||| m.piece == Piece::of_spec(c, Kind::Rook) && m.from == rook_home(c, kside)
    ||| m.captured == Piece::of_spec(c, Kind::Rook) && m.to == rook_home(c, kside)
}

/// The castling rights that are left of `rights` after `m`.
pub open spec fn revoke(rights: CastlingRights, m: Move) -> CastlingRights {
    CastlingRights {
        white_kside: rights.white_kside && !ends_right(m, Color::White, true),
        white_qside: rights.white_qside && !ends_right(m, Color::White, false),
        black_kside: rights.black_kside && !ends_right(m, Color::Black, true),
        black_qside: rights.black_qside && !ends_right(m, Color::Black, false),
    }
}

/// Whether a king of `c` is attacked by the other side.
pub open spec fn king_in_check(b: Seq<Piece>, c: Color) -> bool {
    exists|sq: Square| king_attacked_on(b, c, sq)
}

/// Whether a king of `c` stands on `sq` and is attacked there.
pub open spec fn king_attacked_on(b: Seq<Piece>, c: Color, sq: Square) -> bool {
    piece_at(b, sq) == Piece::of_spec(c, Kind::King) && attacked(b, sq, c.other())
}

/// The move `m` with its check flag set to `check`.
pub open spec fn flagged(m: Move, check: bool) -> Move {
    Move {
        piece: m.piece,
        from: m.from,
        to: m.to,
        captured: m.captured,
        info: m.info,
        check,
        rights: m.rights,
    }
}

/// Of the candidate moves of `c`, in their order, those that do not leave the king of `c`
/// attacked, each flagged as check exactly when it leaves the king of the other side attacked.
pub open spec fn finish(b: Seq<Piece>, c: Color, candidates: Seq<Move>) -> Seq<Move>
    decreases candidates.len(),
{
    if candidates.len() == 0 {
        Seq::empty()
    } else {
        let before = finish(b, c, candidates.drop_last());
        let m = candidates.last();
        let after = apply_board(b, m);
        if king_in_check(after, c) {
            before
        } else {
            before.push(flagged(m, king_in_check(after, c.other())))
        }
    }
}

impl Position {
    /// The moves of the side to move by the way pieces move, in the order of the squares they
    /// leave, whether or not they leave the mover's king attacked.
    pub open spec fn pseudo_legal_moves(self) -> Seq<Move> {
        moves_upto(self.board, self.rights, self.last(), self.side(), 64)
    }

    /// The legal moves of the side to move.
    pub open spec fn legal_moves(self) -> Seq<Move> {
        finish(self.board, self.side(), self.pseudo_legal_moves())
    }

    /// The position after `m`.
    pub open spec fn apply(self, m: Move) -> Position {
        Position {
            board: apply_board(self.board, m),
            rights: revoke(self.rights, m),
            history: self.history.push(m),
        }
    }

    /// Whether the last move can be taken back: there is one, the piece it moved stands on
    /// its destination, the square it left is empty, and so are the squares that taking back
    /// a capture in passing or a castling fills.
    pub open spec fn can_undo(self) -> bool {
        &&& self.history.len() > 0
        &&& undoable(self.board, self.history.last())
    }

    /// The position before the last move.
    pub open spec fn undo(self) -> Position {
        Position {
            board: revert_board(self.board, self.history.last()),
            rights: self.history.last().rights,
            history: self.history.drop_last(),
        }
    }
}

/// Whether the placement `b` can be the result of `m`.
pub open spec fn undoable(b: Seq<Piece>, m: Move) -> bool {
    &&& m.from != m.to
    &&& piece_at(b, m.to) == placed(m)
    &&& piece_at(b, m.from) == Piece::Empty
    &&& m.info == Some(MoveInfo::EnPassant) ==> piece_at(b, passed(m)) == Piece::Empty
    &&& m.info == Some(MoveInfo::Castled) ==> piece_at(b, rook_to(m)) == rook_of(m) && piece_at(
        b,
        rook_from(m),
    ) == Piece::Empty
}

/// Whether a pawn of `c` on `from` may advance to `to`: one square straight ahead onto an
/// empty square, or two from its starting rank over an empty square onto an empty square.
pub open spec fn pawn_advances(b: Seq<Piece>, c: Color, from: Square, to: Square) -> bool {
    &&& to.f() == from.f()
    &&& piece_at(b, to) == Piece::Empty
    &&& to.r() == from.r() + c.forward() || (from.r() == c.pawn_rank() && to.r() == from.r() + 2
        * c.forward() && piece_at(b, Square::at_coords(from.f(), from.r() + c.forward()))
        == Piece::Empty)
}

/// Whether a pawn of `c` on `from` may take on `to`: one square diagonally ahead, onto a
/// piece of the other side.
pub open spec fn pawn_takes(b: Seq<Piece>, c: Color, from: Square, to: Square) -> bool {
    pawn_attack(c, from, to) && piece_at(b, to).is_color(c.other())
}

/// Whether `m` is a move that the side `c` may make on the placement `b` by the way pieces
/// move, with the castling rights `rights` and after the move `last`; whether it leaves the
/// king of `c` attacked is not looked at.
///
/// The piece moved stands on `from` and belongs to `c`. The move records `rights`, no check,
/// and what it takes. A plain move of a knight, bishop, rook, queen or king goes where the
/// piece attacks, onto a square that holds no piece of `c`, and takes what stands there. A
/// pawn advances or takes; on its last rank, and only there, it is promoted to a knight,
/// bishop, rook or queen of `c`. A capture in passing goes diagonally ahead onto an empty
/// square and takes the pawn beside `from` that `last` has just advanced two squares. A
/// castling moves the king from its home square to the square `may_castle` allows.
pub open spec fn pseudo_legal(
    b: Seq<Piece>,
    rights: CastlingRights,
    last: Option<Move>,
    c: Color,
    m: Move,
) -> bool {
    &&& m.piece == piece_at(b, m.from)
    &&& m.piece.is_color(c)
    &&& m.rights == rights
    &&& !m.check
    &&& match m.info {
        None => {
            &&& m.captured == piece_at(b, m.to)
            &&& !piece_at(b, m.to).is_color(c)
            &&& if m.piece.kind_spec() == Some(Kind::Pawn) {
                m.to.r() != c.last_rank() && (pawn_advances(b, c, m.from, m.to) || pawn_takes(
                    b,
                    c,
                    m.from,
                    m.to,
                ))
            } else {
                attacks(b, m.from, m.to)
            }
        },
        Some(MoveInfo::Promoted { piece }) => {
            &&& m.captured == piece_at(b, m.to)
            &&& m.piece == Piece::of_spec(c, Kind::Pawn)
            &&& m.to.r() == c.last_rank()
            &&& pawn_advances(b, c, m.from, m.to) || pawn_takes(b, c, m.from, m.to)
            &&& piece == Piece::of_spec(c, Kind::Knight) || piece == Piece::of_spec(c, Kind::Bishop)
                || piece == Piece::of_spec(c, Kind::Rook) || piece == Piece::of_spec(c, Kind::Queen)
        },
        Some(MoveInfo::EnPassant) => {
            &&& m.piece == Piece::of_spec(c, Kind::Pawn)
            &&& m.captured == Piece::of_spec(c.other(), Kind::Pawn)
            &&& pawn_attack(c, m.from, m.to)
            &&& piece_at(b, m.to) == Piece::Empty
            &&& piece_at(b, passed(m)) == m.captured
            &&& last matches Some(l) && double_push(c.other(), l) && l.to == passed(m)
        },
        Some(MoveInfo::Castled) => {
            &&& m.piece == Piece::of_spec(c, Kind::King)
            &&& m.captured == Piece::Empty
            &&& m.from == king_home(c)
            &&& m.to == king_castled(c, true) && may_castle(b, rights, c, true) || m.to
                == king_castled(c, false) && may_castle(b, rights, c, false)
        },
    }
}

} // verus!
