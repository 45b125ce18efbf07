use vstd::prelude::*;
use crate::attack::{between, clear, is_attacked, piece_at};
use crate::board::Board;
use crate::moves::{CastlingRights, Move, MoveInfo};
use crate::piece::{Color, Kind, Piece};
use crate::rays::{lists, PseudoMoves, RayTables};
use crate::rules::{
    apply_board, arrivals, castle, double_push, en_passant, finish, king_attacked_on, king_home,
    king_in_check, king_moves, may_castle, moves_from, moves_upto, pawn_capture, pawn_moves,
    pawn_pushes, plain, ray_moves, revert_board, rook_home, table_moves,
};
use crate::square::{
    file, lemma_at_coords, lemma_idx_at, on_board, rank, square_at, File, Rank, Square,
};

verus! {

/// Whether two pieces belong to the same side, or both to none.
fn same_side(a: Piece, b: Piece) -> (same: bool)
    ensures
        same == (a.color_spec() == b.color_spec()),
{
    match (a.color(), b.color()) {
        (None, None) => true,
        (Some(x), Some(y)) => x == y,
        _ => false,
    }
}

/// Appends the moves of the piece on `from` along `line`.
pub fn push_ray_moves(
    board: &Board<Piece>,
    rights: CastlingRights,
    from: Square,
    line: &Vec<Square>,
    out: &mut Vec<Move>,
)
    ensures
        final(out)@ == old(out)@ + ray_moves(board@, rights, from, line@),
{
    let ghost start = out@;
    let ghost all = ray_moves(board@, rights, from, line@);
    let piece = *board.get(from);
    let mut k: usize = 0;
    assert(line@.skip(0) =~= line@);
    assert(start + all =~= out@ + all);
    while k < line.len()
        invariant
            k <= line@.len(),
            piece == piece_at(board@, from),
            start == old(out)@,
            all == ray_moves(board@, rights, from, line@),
            out@ + ray_moves(board@, rights, from, line@.skip(k as int)) == start + all,
        decreases line@.len() - k,
    {
        let to = line[k];
        let target = *board.get(to);
        let ghost before = out@;
        let ghost rest = ray_moves(board@, rights, from, line@.skip(k as int + 1));
        proof {
            assert(line@.skip(k as int).skip(1) =~= line@.skip(k as int + 1));
            assert(line@.skip(k as int)[0] == to);
        }
        if target == Piece::Empty {
            out.push(Move::new(piece, from, to, target, None, false, rights));
            assert(before + (seq![plain(board@, rights, from, to)] + rest) =~= out@ + rest);
        } else {
            let ghost tail = ray_moves(board@, rights, from, line@.skip(k as int));
            if !same_side(target, piece) {
                out.push(Move::new(piece, from, to, target, None, false, rights));
                assert(tail == seq![plain(board@, rights, from, to)]);
                assert(before + tail =~= out@);
            } else {
                assert(tail == Seq::<Move>::empty());
                assert(before + tail =~= out@);
            }
            return ;
        }
        k += 1;
    }
    assert(out@ + Seq::<Move>::empty() =~= out@);
}

/// Appends the moves of the piece on `from` along the rays `rs`.
pub fn push_table_moves(
    board: &Board<Piece>,
    rights: CastlingRights,
    from: Square,
    rs: &PseudoMoves,
    out: &mut Vec<Move>,
)
    ensures
        final(out)@ == old(out)@ + table_moves(board@, rights, from, lists(*rs)),
{
    let ghost start = out@;
    let mut j: usize = 0;
    assert(lists(*rs).take(0) =~= Seq::<Seq<Square>>::empty());
    assert(out@ =~= start + Seq::<Move>::empty());
    while j < rs.len()
        invariant
            j <= rs@.len(),
            out@ == start + table_moves(board@, rights, from, lists(*rs).take(j as int)),
        decreases rs@.len() - j,
    {
        let ghost before = table_moves(board@, rights, from, lists(*rs).take(j as int));
        let ghost line = ray_moves(board@, rights, from, rs@[j as int]@);
        proof {
            assert(lists(*rs).take(j as int + 1).drop_last() =~= lists(*rs).take(j as int));
            assert(lists(*rs).take(j as int + 1).last() == rs@[j as int]@);
        }
        push_ray_moves(board, rights, from, &rs[j], out);
        assert(out@ =~= start + (before + line));
        j += 1;
    }
    assert(lists(*rs).take(j as int) =~= lists(*rs));
}

/// Appends the moves by which a pawn of `c` arrives on `to`.
fn push_arrivals(
    c: Color,
    rights: CastlingRights,
    from: Square,
    to: Square,
    captured: Piece,
    out: &mut Vec<Move>,
)
    ensures
        final(out)@ == old(out)@ + arrivals(c, rights, from, to, captured),
{
    let ghost start = out@;
    let pawn = Piece::of(c, Kind::Pawn);
    if rank(to) == c.last_rank() {
        out.push(
            Move::new(
                pawn,
                from,
                to,
                captured,
                Some(MoveInfo::Promoted { piece: Piece::of(c, Kind::Knight) }),
                false,
                rights,
            ),
        );
        out.push(
            Move::new(
                pawn,
                from,
                to,
                captured,
                Some(MoveInfo::Promoted { piece: Piece::of(c, Kind::Bishop) }),
                false,
                rights,
            ),
        );
        out.push(
            Move::new(
                pawn,
                from,
                to,
                captured,
                Some(MoveInfo::Promoted { piece: Piece::of(c, Kind::Rook) }),
                false,
                rights,
            ),
        );
        out.push(
            Move::new(
                pawn,
                from,
                to,
                captured,
                Some(MoveInfo::Promoted { piece: Piece::of(c, Kind::Queen) }),
                false,
                rights,
            ),
        );
    } else {
        out.push(Move::new(pawn, from, to, captured, None, false, rights));
    }
    assert(out@ =~= start + arrivals(c, rights, from, to, captured));
}

/// Appends the advances of a pawn of `c` on `from`.
fn push_pawn_pushes(
    board: &Board<Piece>,
    rights: CastlingRights,
    c: Color,
    from: Square,
    out: &mut Vec<Move>,
)
    ensures
        final(out)@ == old(out)@ + pawn_pushes(board@, rights, c, from),
{
    let ghost start = out@;
    let f: File = file(from);
    let r1: Rank = rank(from) + c.forward();
    if on_board(f, r1) {
        let one = square_at(f, r1);
        if *board.get(one) == Piece::Empty {
            push_arrivals(c, rights, from, one, Piece::Empty, out);
            if rank(from) == c.pawn_rank() {
                let two = square_at(f, r1 + c.forward());
                if *board.get(two) == Piece::Empty {
                    out.push(
                        Move::new(
                            Piece::of(c, Kind::Pawn),
                            from,
                            two,
                            Piece::Empty,
                            None,
                            false,
                            rights,
                        ),
                    );
                }
            }
        }
    }
    assert(out@ =~= start + pawn_pushes(board@, rights, c, from));
}

/// Appends the capture of a pawn of `c` on `from` towards the file `side` files away.
fn push_pawn_capture(
    board: &Board<Piece>,
    rights: CastlingRights,
    c: Color,
    from: Square,
    side: File,
    out: &mut Vec<Move>,
)
    requires
        side == 1 || side == -1,
    ensures
        final(out)@ == old(out)@ + pawn_capture(board@, rights, c, from, side as int),
{
    let ghost start = out@;
    let f: File = file(from) + side;
    let r: Rank = rank(from) + c.forward();
    if on_board(f, r) {
        let to = square_at(f, r);
        let target = *board.get(to);
        if target.has_color(c.opponent()) {
            push_arrivals(c, rights, from, to, target, out);
        }
    }
    assert(out@ =~= start + pawn_capture(board@, rights, c, from, side as int));
}

/// Whether `m` is the advance of a pawn of `c` by two squares from its starting rank.
fn is_double_push(c: Color, m: Move) -> (b: bool)
    ensures
        b == double_push(c, m),
{
    m.piece == Piece::of(c, Kind::Pawn) && file(m.from) == file(m.to) && rank(m.from)
        == c.pawn_rank() && rank(m.to) == c.pawn_rank() + 2 * c.forward()
}

/// Appends the capture in passing of a pawn of `c` on `from` towards the file `side` files away.
fn push_en_passant(
    board: &Board<Piece>,
    rights: CastlingRights,
    last: Option<Move>,
    c: Color,
    from: Square,
    side: File,
    out: &mut Vec<Move>,
)
    requires
        side == 1 || side == -1,
    ensures
        final(out)@ == old(out)@ + en_passant(board@, rights, last, c, from, side as int),
{
    let ghost start = out@;
    let f: File = file(from) + side;
    let r: Rank = rank(from) + c.forward();
    let other = c.opponent();
    match last {
        Some(l) => {
            if is_double_push(other, l) && file(l.to) == f && rank(l.to) == rank(from)
                && *board.get(l.to) == Piece::of(other, Kind::Pawn) {
                let to = square_at(f, r);
                if *board.get(to) == Piece::Empty {
                    out.push(
                        Move::new(
                            Piece::of(c, Kind::Pawn),
                            from,
                            to,
                            Piece::of(other, Kind::Pawn),
                            Some(MoveInfo::EnPassant),
                            false,
                            rights,
                        ),
                    );
                }
            }
        },
        None => {},
    }
    assert(out@ =~= start + en_passant(board@, rights, last, c, from, side as int));
}

/// Appends the moves of a pawn of `c` on `from`.
pub fn push_pawn_moves(
    board: &Board<Piece>,
    rights: CastlingRights,
    last: Option<Move>,
    c: Color,
    from: Square,
    out: &mut Vec<Move>,
)
    ensures
        final(out)@ == old(out)@ + pawn_moves(board@, rights, last, c, from),
{
    proof {
        lemma_append_five(
            out@,
            pawn_pushes(board@, rights, c, from),
            pawn_capture(board@, rights, c, from, -1),
            pawn_capture(board@, rights, c, from, 1),
            en_passant(board@, rights, last, c, from, -1),
            en_passant(board@, rights, last, c, from, 1),
        );
    }
    push_pawn_pushes(board, rights, c, from, out);
    push_pawn_capture(board, rights, c, from, -1, out);
    push_pawn_capture(board, rights, c, from, 1, out);
    push_en_passant(board, rights, last, c, from, -1, out);
    push_en_passant(board, rights, last, c, from, 1, out);
}

/// Appending five sequences one after the other appends their concatenation.
proof fn lemma_append_five<A>(s: Seq<A>, a: Seq<A>, b: Seq<A>, c: Seq<A>, d: Seq<A>, e: Seq<A>)
    ensures
        s + a + b + c + d + e == s + (a + b + c + d + e),
{
    assert(s + a + b + c + d + e =~= s + (a + b + c + d + e));
}

/// Between the starting squares of king and rook lie the squares of the home rank on the
/// files between theirs.
pub proof fn lemma_castling_path(b: Seq<Piece>, c: Color, kside: bool)
    ensures
        kside ==> (clear(b, king_home(c), rook_home(c, kside)) <==> piece_at(
            b,
            Square::at_coords(5, c.home_rank() as int),
        ) == Piece::Empty && piece_at(b, Square::at_coords(6, c.home_rank() as int)) == Piece::Empty),
        !kside ==> (clear(b, king_home(c), rook_home(c, kside)) <==> piece_at(
            b,
            Square::at_coords(1, c.home_rank() as int),
        ) == Piece::Empty && piece_at(b, Square::at_coords(2, c.home_rank() as int)) == Piece::Empty
            && piece_at(b, Square::at_coords(3, c.home_rank() as int)) == Piece::Empty),
{
    let hr = c.home_rank() as int;
    let king = king_home(c);
    let rook = rook_home(c, kside);
    lemma_at_coords(4, hr);
    lemma_at_coords(0, hr);
    lemma_at_coords(7, hr);
    lemma_at_coords(1, hr);
    lemma_at_coords(2, hr);
    lemma_at_coords(3, hr);
    lemma_at_coords(5, hr);
    lemma_at_coords(6, hr);
    if kside {
        assert(between(king, rook, Square::at_coords(5, hr)));
        assert(between(king, rook, Square::at_coords(6, hr)));
    } else {
        assert(between(king, rook, Square::at_coords(1, hr)));
        assert(between(king, rook, Square::at_coords(2, hr)));
        assert(between(king, rook, Square::at_coords(3, hr)));
    }
    assert forall|m: Square| #[trigger] between(king, rook, m) implies m == Square::at_coords(m.f(), hr)
        && m.r() == hr && (if kside {
        5 <= m.f() <= 6
    } else {
        1 <= m.f() <= 3
    }) by {
        lemma_idx_at(m);
    }
}

/// Whether `c` may castle on the given side.
pub fn can_castle(
    board: &Board<Piece>,
    tables: &RayTables,
    rights: CastlingRights,
    c: Color,
    kside: bool,
) -> (may: bool)
    ensures
        may == may_castle(board@, rights, c, kside),
{
    let hr = c.home_rank();
    let other = c.opponent();
    proof {
        lemma_castling_path(board@, c, kside);
    }
    if !(if kside { rights.kside(c) } else { rights.qside(c) }) {
        return false;
    }
    let king = square_at(4, hr);
    let rook = square_at(if kside { 7 } else { 0 }, hr);
    if *board.get(king) != Piece::of(c, Kind::King) || *board.get(rook) != Piece::of(c, Kind::Rook) {
        return false;
    }
    let path_clear = if kside {
        *board.get(square_at(5, hr)) == Piece::Empty && *board.get(square_at(6, hr)) == Piece::Empty
    } else {
        *board.get(square_at(1, hr)) == Piece::Empty && *board.get(square_at(2, hr)) == Piece::Empty
            && *board.get(square_at(3, hr)) == Piece::Empty
    };
    if !path_clear {
        return false;
    }
    let transit = square_at(if kside { 5 } else { 3 }, hr);
    let to = square_at(if kside { 6 } else { 2 }, hr);
    !is_attacked(board, tables, king, other) && !is_attacked(board, tables, transit, other)
        && !is_attacked(board, tables, to, other)
}

/// Appends the castling of `c` on the given side, if `c` may castle there.
fn push_castle(
    board: &Board<Piece>,
    tables: &RayTables,
    rights: CastlingRights,
    c: Color,
    kside: bool,
    out: &mut Vec<Move>,
)
    ensures
        final(out)@ == old(out)@ + castle(board@, rights, c, kside),
{
    let ghost start = out@;
    if can_castle(board, tables, rights, c, kside) {
        let hr = c.home_rank();
        out.push(
            Move::new(
                Piece::of(c, Kind::King),
                square_at(4, hr),
                square_at(if kside { 6 } else { 2 }, hr),
                Piece::Empty,
                Some(MoveInfo::Castled),
                false,
                rights,
            ),
        );
    }
    assert(out@ =~= start + castle(board@, rights, c, kside));
}

/// Appends the moves of the king of `c` on `from`.
pub fn push_king_moves(
    board: &Board<Piece>,
    tables: &RayTables,
    rights: CastlingRights,
    c: Color,
    from: Square,
    out: &mut Vec<Move>,
)
    ensures
        final(out)@ == old(out)@ + king_moves(board@, rights, c, from),
{
    let ghost start = out@;
    push_table_moves(board, rights, from, tables.king(from), out);
    if from == square_at(4, c.home_rank()) {
        push_castle(board, tables, rights, c, true, out);
        push_castle(board, tables, rights, c, false, out);
    }
    assert(out@ =~= start + king_moves(board@, rights, c, from));
}

/// Appends the moves of the piece on `from`, if it belongs to `c`.
pub fn push_moves_from(
    board: &Board<Piece>,
    tables: &RayTables,
    rights: CastlingRights,
    last: Option<Move>,
    c: Color,
    from: Square,
    out: &mut Vec<Move>,
)
    ensures
        final(out)@ == old(out)@ + moves_from(board@, rights, last, c, from),
{
    let ghost start = out@;
    let piece = *board.get(from);
    if !piece.has_color(c) {
        assert(out@ =~= start + Seq::<Move>::empty());
        return ;
    }
    match piece.kind() {
        None => {
            assert(out@ =~= start + Seq::<Move>::empty());
        },
        Some(Kind::Pawn) => push_pawn_moves(board, rights, last, c, from, out),
        Some(Kind::Knight) => push_table_moves(board, rights, from, tables.knight(from), out),
        Some(Kind::Bishop) => push_table_moves(board, rights, from, tables.bishop(from), out),
        Some(Kind::Rook) => push_table_moves(board, rights, from, tables.rook(from), out),
        Some(Kind::Queen) => push_table_moves(board, rights, from, tables.queen(from), out),
        Some(Kind::King) => push_king_moves(board, tables, rights, c, from, out),
    }
}

/// The moves of the pieces of `c` by the way they move, in the order of the squares they leave.
pub fn candidate_moves(
    board: &Board<Piece>,
    tables: &RayTables,
    rights: CastlingRights,
    last: Option<Move>,
    c: Color,
) -> (out: Vec<Move>)
    ensures
        out@ == moves_upto(board@, rights, last, c, 64),
{
    let mut out: Vec<Move> = Vec::new();
    let mut i: usize = 0;
    while i < 64
        invariant
            i <= 64,
            out@ == moves_upto(board@, rights, last, c, i as nat),
        decreases 64 - i,
    {
        let from = Square::from_index(i).unwrap();
        push_moves_from(board, tables, rights, last, c, from, &mut out);
        i += 1;
    }
    out
}

/// Whether a king of `c` is attacked by the other side.
pub fn in_check(board: &Board<Piece>, tables: &RayTables, c: Color) -> (check: bool)
    ensures
        check == king_in_check(board@, c),
{
    let king = Piece::of(c, Kind::King);
    let other = c.opponent();
    let mut i: usize = 0;
    while i < 64
        invariant
            i <= 64,
            king == Piece::of_spec(c, Kind::King),
            other == c.other(),
            forall|j: int| 0 <= j < i ==> !king_attacked_on(board@, c, #[trigger] Square::at(j)),
        decreases 64 - i,
    {
        let sq = Square::from_index(i).unwrap();
        if *board.get(sq) == king && is_attacked(board, tables, sq, other) {
            assert(king_attacked_on(board@, c, sq));
            return true;
        }
        i += 1;
    }
    assert forall|sq: Square| !king_attacked_on(board@, c, sq) by {
        lemma_idx_at(sq);
        assert(!king_attacked_on(board@, c, Square::at(sq.idx())));
    }
    false
}

/// Makes the move `m` on the board.
pub fn make(board: &mut Board<Piece>, m: Move)
    ensures
        final(board)@ == apply_board(old(board)@, m),
{
    let landing = match m.info {
        Some(MoveInfo::Promoted { piece }) => piece,
        _ => m.piece,
    };
    board.set(m.from, Piece::Empty);
    board.set(m.to, landing);
    match m.info {
        Some(MoveInfo::EnPassant) => {
            board.set(square_at(file(m.to), rank(m.from)), Piece::Empty);
        },
        Some(MoveInfo::Castled) => {
            let kside = file(m.to) > file(m.from);
            let rook = match m.piece.color() {
                Some(c) => Piece::of(c, Kind::Rook),
                None => Piece::Empty,
            };
            board.set(square_at(if kside { 7 } else { 0 }, rank(m.from)), Piece::Empty);
            board.set(square_at(if kside { 5 } else { 3 }, rank(m.from)), rook);
        },
        _ => {},
    }
}

/// Takes the move `m` back on the board.
pub fn unmake(board: &mut Board<Piece>, m: Move)
    ensures
        final(board)@ == revert_board(old(board)@, m),
{
    match m.info {
        Some(MoveInfo::EnPassant) => {
            board.set(m.to, Piece::Empty);
            board.set(m.from, m.piece);
            board.set(square_at(file(m.to), rank(m.from)), m.captured);
        },
        Some(MoveInfo::Castled) => {
            let kside = file(m.to) > file(m.from);
            let rook = match m.piece.color() {
                Some(c) => Piece::of(c, Kind::Rook),
                None => Piece::Empty,
            };
            board.set(m.to, m.captured);
            board.set(m.from, m.piece);
            board.set(square_at(if kside { 5 } else { 3 }, rank(m.from)), Piece::Empty);
            board.set(square_at(if kside { 7 } else { 0 }, rank(m.from)), rook);
        },
        _ => {
            board.set(m.to, m.captured);
            board.set(m.from, m.piece);
        },
    }
}

/// Of the candidate moves of `c`, those that do not leave the king of `c` attacked, each
/// flagged as check exactly when it leaves the king of the other side attacked.
pub fn legal_among(board: &Board<Piece>, tables: &RayTables, c: Color, candidates: &Vec<Move>) -> (out:
    Vec<Move>)
    ensures
        out@ == finish(board@, c, candidates@),
{
    let mut out: Vec<Move> = Vec::new();
    let mut i: usize = 0;
    assert(candidates@.take(0) =~= Seq::<Move>::empty());
    while i < candidates.len()
        invariant
            i <= candidates@.len(),
            out@ == finish(board@, c, candidates@.take(i as int)),
        decreases candidates@.len() - i,
    {
        let m = candidates[i];
        proof {
            assert(candidates@.take(i as int + 1).drop_last() =~= candidates@.take(i as int));
            assert(candidates@.take(i as int + 1).last() == m);
        }
        let mut after = *board;
        make(&mut after, m);
        if !in_check(&after, tables, c) {
            let check = in_check(&after, tables, c.opponent());
            out.push(Move::new(m.piece, m.from, m.to, m.captured, m.info, check, m.rights));
        }
        i += 1;
    }
    assert(candidates@.take(i as int) =~= candidates@);
    out
}

} // verus!
