use vstd::prelude::*;
use crate::attack::{
    abs, attacks, clear, diagonal, hit_at, king_step, knight_step, lemma_bishop_directions,
    lemma_bishop_index, lemma_clear_symmetric, lemma_hit_source, lemma_knight_directions,
    lemma_knight_index, lemma_queen_directions, lemma_queen_index, lemma_ray_once,
    lemma_rays_from, lemma_rays_has, lemma_rook_directions, lemma_rook_index, lemma_sight,
    pawn_attack, piece_at, sign, straight, toward, unit,
};
use crate::movegen::lemma_castling_path;
use crate::moves::{CastlingRights, Move, MoveInfo};
use crate::piece::{Color, Kind, Piece};
use crate::rays::{
    bishop_directions, knight_directions, queen_directions, ray, rays, rook_directions, Direction,
};
use crate::rules::{
    apply_board, arrivals, castle, double_push, en_passant, finish, flagged, king_castled, king_home,
    king_in_check, king_moves, may_castle, moves_from, moves_upto, passed, pawn_advances,
    pawn_capture, pawn_moves, pawn_pushes, pawn_takes, plain, promotion, pseudo_legal, ray_moves,
    revert_board, table_moves, undoable, Position,
};
use crate::square::{inside, lemma_at_coords, lemma_at_idx, lemma_idx_at, Square};

verus! {

/// An element of a concatenation is an element of one of its two parts.
pub proof fn lemma_contains_add<A>(a: Seq<A>, b: Seq<A>, x: A)
    ensures
        (a + b).contains(x) <==> a.contains(x) || b.contains(x),
{
    if a.contains(x) {
        let i = choose|i: int| 0 <= i < a.len() && a[i] == x;
        assert((a + b)[i] == x);
    }
    if b.contains(x) {
        let i = choose|i: int| 0 <= i < b.len() && b[i] == x;
        assert((a + b)[a.len() + i] == x);
    }
    if (a + b).contains(x) {
        let i = choose|i: int| 0 <= i < (a + b).len() && (a + b)[i] == x;
        if i < a.len() {
            assert(a[i] == x);
        } else {
            assert(b[i - a.len()] == x);
        }
    }
}

/// The placement after a move does not depend on the move's check flag.
pub proof fn lemma_apply_ignores_flag(b: Seq<Piece>, m: Move, check: bool)
    ensures
        apply_board(b, flagged(m, check)) == apply_board(b, m),
{
}

/// Whether `m` is the candidate at position `k` with its check flag set, leaves the king of
/// `c` unattacked, and is flagged as check exactly when it leaves the other king attacked.
pub open spec fn kept_at(b: Seq<Piece>, c: Color, candidates: Seq<Move>, m: Move, k: int) -> bool {
    &&& 0 <= k < candidates.len()
    &&& m == flagged(candidates[k], m.check)
    &&& !king_in_check(apply_board(b, m), c)
    &&& m.check == king_in_check(apply_board(b, m), c.other())
}

/// A move is kept from the candidates exactly when one of them, carried out, leaves the
/// mover's king unattacked and differs from the move at most in the check flag, which says
/// whether the other king is attacked afterwards.
pub proof fn lemma_finish_contains(b: Seq<Piece>, c: Color, candidates: Seq<Move>, m: Move)
    ensures
        finish(b, c, candidates).contains(m) <==> exists|k: int| kept_at(b, c, candidates, m, k),
    decreases candidates.len(),
{
    if candidates.len() > 0 {
        let front = candidates.drop_last();
        let last = candidates.last();
        let before = finish(b, c, front);
        let after = apply_board(b, last);
        let all = finish(b, c, candidates);
        lemma_finish_contains(b, c, front, m);
        lemma_apply_ignores_flag(b, last, m.check);
        let added = flagged(last, king_in_check(after, c.other()));
        if all.contains(m) {
            if before.contains(m) {
                let k = choose|k: int| kept_at(b, c, front, m, k);
                assert(candidates[k] == front[k]);
                assert(kept_at(b, c, candidates, m, k));
            } else {
                let i = choose|i: int| 0 <= i < all.len() && all[i] == m;
                if king_in_check(after, c) {
                    assert(all == before);
                } else {
                    assert(all == before.push(added));
                    if i < before.len() {
                        assert(before[i] == m);
                    }
                    assert(m == added);
                }
                assert(kept_at(b, c, candidates, m, candidates.len() - 1));
            }
        }
        if exists|k: int| kept_at(b, c, candidates, m, k) {
            let k = choose|k: int| kept_at(b, c, candidates, m, k);
            if k < front.len() {
                assert(front[k] == candidates[k]);
                assert(kept_at(b, c, front, m, k));
                let i = choose|i: int| 0 <= i < before.len() && before[i] == m;
                assert(all[i] == m);
            } else {
                assert(m == added);
                assert(all[before.len() as int] == m);
            }
        }
    }
}

/// No legal move leaves the mover's king attacked.
pub proof fn lemma_legal_move_keeps_king_safe(s: Position, m: Move)
    requires
        s.legal_moves().contains(m),
    ensures
        !king_in_check(s.apply(m).board, s.side()),
{
    lemma_finish_contains(s.board, s.side(), s.pseudo_legal_moves(), m);
}

/// A legal move carries the check flag exactly when, once it is made, the king of the other
/// side is attacked.
pub proof fn lemma_check_flag_is_exact(s: Position, m: Move)
    requires
        s.legal_moves().contains(m),
    ensures
        m.check <==> king_in_check(s.apply(m).board, s.side().other()),
{
    lemma_finish_contains(s.board, s.side(), s.pseudo_legal_moves(), m);
}

/// Whether the piece on `from` may land on `to` as far as what `to` holds goes: `to` is
/// empty or holds a piece of the other side.
pub open spec fn open_to(b: Seq<Piece>, from: Square, to: Square) -> bool {
    piece_at(b, to) == Piece::Empty || piece_at(b, to).color_spec() != piece_at(b, from).color_spec()
}

/// A move along a ray goes to a square of the ray that is open to the mover, past empty
/// squares only.
pub proof fn lemma_ray_moves_member(
    b: Seq<Piece>,
    rights: CastlingRights,
    from: Square,
    line: Seq<Square>,
    m: Move,
) -> (k: int)
    requires
        ray_moves(b, rights, from, line).contains(m),
    ensures
        0 <= k < line.len(),
        m == plain(b, rights, from, line[k]),
        open_to(b, from, line[k]),
        forall|i: int| 0 <= i < k ==> piece_at(b, #[trigger] line[i]) == Piece::Empty,
    decreases line.len(),
{
    let first = seq![plain(b, rights, from, line[0])];
    if line.len() == 0 {
        0
    } else if piece_at(b, line[0]) == Piece::Empty {
        let rest = ray_moves(b, rights, from, line.skip(1));
        lemma_contains_add(first, rest, m);
        if first.contains(m) {
            0
        } else {
            let k = lemma_ray_moves_member(b, rights, from, line.skip(1), m);
            assert forall|i: int| 0 <= i < k + 1 implies piece_at(b, #[trigger] line[i])
                == Piece::Empty by {
                if i > 0 {
                    assert(line.skip(1)[i - 1] == line[i]);
                }
            }
            k + 1
        }
    } else {
        0
    }
}

/// A square of a ray that is open to the mover and comes after empty squares only is the
/// destination of a move along the ray.
pub proof fn lemma_ray_moves_has(
    b: Seq<Piece>,
    rights: CastlingRights,
    from: Square,
    line: Seq<Square>,
    k: int,
)
    requires
        0 <= k < line.len(),
        open_to(b, from, line[k]),
        forall|i: int| 0 <= i < k ==> piece_at(b, #[trigger] line[i]) == Piece::Empty,
    ensures
        ray_moves(b, rights, from, line).contains(plain(b, rights, from, line[k])),
    decreases k,
{
    let first = seq![plain(b, rights, from, line[0])];
    let all = ray_moves(b, rights, from, line);
    if k == 0 {
        assert(first[0] == plain(b, rights, from, line[0]));
        if piece_at(b, line[0]) == Piece::Empty {
            lemma_contains_add(first, ray_moves(b, rights, from, line.skip(1)), first[0]);
        } else {
            assert(all == first);
        }
    } else {
        let rest = line.skip(1);
        assert(piece_at(b, line[0]) == Piece::Empty);
        assert(rest[k - 1] == line[k]);
        assert forall|i: int| 0 <= i < k - 1 implies piece_at(b, #[trigger] rest[i]) == Piece::Empty by {
            assert(rest[i] == line[i + 1]);
        }
        lemma_ray_moves_has(b, rights, from, rest, k - 1);
        lemma_contains_add(first, ray_moves(b, rights, from, rest), plain(b, rights, from, line[k]));
    }
}

/// A move along one of several rays is a move along one of them.
pub proof fn lemma_table_moves_member(
    b: Seq<Piece>,
    rights: CastlingRights,
    from: Square,
    rs: Seq<Seq<Square>>,
    m: Move,
) -> (j: int)
    requires
        table_moves(b, rights, from, rs).contains(m),
    ensures
        0 <= j < rs.len(),
        ray_moves(b, rights, from, rs[j]).contains(m),
    decreases rs.len(),
{
    if rs.len() == 0 {
        0
    } else {
        let before = table_moves(b, rights, from, rs.drop_last());
        let line = ray_moves(b, rights, from, rs.last());
        lemma_contains_add(before, line, m);
        if before.contains(m) {
            lemma_table_moves_member(b, rights, from, rs.drop_last(), m)
        } else {
            rs.len() - 1
        }
    }
}

/// A move along one of several rays is one of the moves along them.
pub proof fn lemma_table_moves_has(
    b: Seq<Piece>,
    rights: CastlingRights,
    from: Square,
    rs: Seq<Seq<Square>>,
    j: int,
    m: Move,
)
    requires
        0 <= j < rs.len(),
        ray_moves(b, rights, from, rs[j]).contains(m),
    ensures
        table_moves(b, rights, from, rs).contains(m),
    decreases rs.len(),
{
    let before = table_moves(b, rights, from, rs.drop_last());
    let line = ray_moves(b, rights, from, rs.last());
    lemma_contains_add(before, line, m);
    if j < rs.len() - 1 {
        lemma_table_moves_has(b, rights, from, rs.drop_last(), j, m);
    }
}

/// Whether `to` lies on the line that leaves `from` in the direction at position `i`.
pub open spec fn lies_toward(from: Square, to: Square, dirs: Seq<Direction>, i: int) -> bool {
    0 <= i < dirs.len() && toward(from, to, dirs[i].0 as int, dirs[i].1 as int)
}

/// Whether `to` is one step away from `from` in the direction at position `i`.
pub open spec fn lies_at(from: Square, to: Square, dirs: Seq<Direction>, i: int) -> bool {
    0 <= i < dirs.len() && to.f() == from.f() + dirs[i].0 && to.r() == from.r() + dirs[i].1
}

/// Whether every direction in `dirs` is a step to a neighbouring square.
pub open spec fn units(dirs: Seq<Direction>) -> bool {
    forall|i: int| 0 <= i < dirs.len() ==> unit(#[trigger] dirs[i].0 as int, dirs[i].1 as int)
}

/// The moves of a line piece are the plain moves to the squares that are open to it and
/// that it sees along one of its directions.
pub proof fn lemma_line_moves(
    b: Seq<Piece>,
    rights: CastlingRights,
    from: Square,
    dirs: Seq<Direction>,
    m: Move,
)
    requires
        units(dirs),
    ensures
        table_moves(b, rights, from, rays(false, from, dirs)).contains(m) <==> m == plain(
            b,
            rights,
            from,
            m.to,
        ) && open_to(b, from, m.to) && clear(b, from, m.to) && exists|i: int|
            lies_toward(from, m.to, dirs, i),
{
    let rs = rays(false, from, dirs);
    lemma_clear_symmetric(b, from, m.to);
    if table_moves(b, rights, from, rs).contains(m) {
        let j = lemma_table_moves_member(b, rights, from, rs, m);
        let k = lemma_ray_moves_member(b, rights, from, rs[j], m);
        let i = lemma_rays_from(false, from, dirs, j);
        assert(unit(dirs[i].0 as int, dirs[i].1 as int));
        assert(hit_at(b, rs[j], k, piece_at(b, m.to), piece_at(b, m.to)));
        lemma_hit_source(b, from, dirs[i], k, piece_at(b, m.to), piece_at(b, m.to));
        assert(lies_toward(from, m.to, dirs, i));
    }
    if m == plain(b, rights, from, m.to) && open_to(b, from, m.to) && clear(b, from, m.to)
        && exists|i: int| lies_toward(from, m.to, dirs, i) {
        let i = choose|i: int| lies_toward(from, m.to, dirs, i);
        let k = lemma_sight(b, from, dirs[i], m.to);
        let j = lemma_rays_has(false, from, dirs, i);
        lemma_ray_moves_has(b, rights, from, rs[j], k);
        lemma_table_moves_has(b, rights, from, rs, j, m);
    }
}

/// The moves of a leaper are the plain moves to the squares that are open to it and one of
/// its steps away.
pub proof fn lemma_leap_moves(
    b: Seq<Piece>,
    rights: CastlingRights,
    from: Square,
    dirs: Seq<Direction>,
    m: Move,
)
    ensures
        table_moves(b, rights, from, rays(true, from, dirs)).contains(m) <==> m == plain(
            b,
            rights,
            from,
            m.to,
        ) && open_to(b, from, m.to) && exists|i: int| lies_at(from, m.to, dirs, i),
{
    let rs = rays(true, from, dirs);
    lemma_idx_at(from);
    lemma_idx_at(m.to);
    if table_moves(b, rights, from, rs).contains(m) {
        let j = lemma_table_moves_member(b, rights, from, rs, m);
        let k = lemma_ray_moves_member(b, rights, from, rs[j], m);
        let i = lemma_rays_from(true, from, dirs, j);
        lemma_ray_once(from, dirs[i]);
        lemma_at_coords(from.f() + dirs[i].0, from.r() + dirs[i].1);
        assert(lies_at(from, m.to, dirs, i));
    }
    if m == plain(b, rights, from, m.to) && open_to(b, from, m.to) && exists|i: int|
        lies_at(from, m.to, dirs, i) {
        let i = choose|i: int| lies_at(from, m.to, dirs, i);
        lemma_ray_once(from, dirs[i]);
        let j = lemma_rays_has(true, from, dirs, i);
        lemma_ray_moves_has(b, rights, from, rs[j], 0);
        lemma_table_moves_has(b, rights, from, rs, j, m);
    }
}

/// Two squares lie on one diagonal exactly when one lies in a bishop's direction from the other.
pub proof fn lemma_diagonal_directions(from: Square, to: Square)
    ensures
        diagonal(from, to) <==> exists|i: int| lies_toward(from, to, bishop_directions(), i),
        units(bishop_directions()),
{
    lemma_idx_at(from);
    lemma_idx_at(to);
    assert forall|i: int| 0 <= i < bishop_directions().len() implies unit(
        #[trigger] bishop_directions()[i].0 as int,
        bishop_directions()[i].1 as int,
    ) by {
        lemma_bishop_directions(i);
    }
    if diagonal(from, to) {
        let i = lemma_bishop_index(sign(to.f() - from.f()), sign(to.r() - from.r()));
        assert(lies_toward(from, to, bishop_directions(), i));
    }
    if exists|i: int| lies_toward(from, to, bishop_directions(), i) {
        let i = choose|i: int| lies_toward(from, to, bishop_directions(), i);
        lemma_bishop_directions(i);
    }
}

/// Two squares lie on one file or rank exactly when one lies in a rook's direction from the other.
pub proof fn lemma_straight_directions(from: Square, to: Square)
    ensures
        straight(from, to) <==> exists|i: int| lies_toward(from, to, rook_directions(), i),
        units(rook_directions()),
{
    lemma_idx_at(from);
    lemma_idx_at(to);
    assert forall|i: int| 0 <= i < rook_directions().len() implies unit(
        #[trigger] rook_directions()[i].0 as int,
        rook_directions()[i].1 as int,
    ) by {
        lemma_rook_directions(i);
    }
    if straight(from, to) {
        let i = lemma_rook_index(sign(to.f() - from.f()), sign(to.r() - from.r()));
        assert(lies_toward(from, to, rook_directions(), i));
    }
    if exists|i: int| lies_toward(from, to, rook_directions(), i) {
        let i = choose|i: int| lies_toward(from, to, rook_directions(), i);
        lemma_rook_directions(i);
    }
}

/// Two squares lie on one line exactly when one lies in a queen's direction from the other.
pub proof fn lemma_queen_lines(from: Square, to: Square)
    ensures
        diagonal(from, to) || straight(from, to) <==> exists|i: int|
            lies_toward(from, to, queen_directions(), i),
        units(queen_directions()),
{
    lemma_diagonal_directions(from, to);
    lemma_straight_directions(from, to);
    assert forall|i: int| 0 <= i < queen_directions().len() implies unit(
        #[trigger] queen_directions()[i].0 as int,
        queen_directions()[i].1 as int,
    ) by {
        lemma_queen_directions(i);
    }
    if exists|i: int| lies_toward(from, to, bishop_directions(), i) {
        let i = choose|i: int| lies_toward(from, to, bishop_directions(), i);
        assert(lies_toward(from, to, queen_directions(), i));
    }
    if exists|i: int| lies_toward(from, to, rook_directions(), i) {
        let i = choose|i: int| lies_toward(from, to, rook_directions(), i);
        assert(lies_toward(from, to, queen_directions(), i + 4));
    }
    if exists|i: int| lies_toward(from, to, queen_directions(), i) {
        let i = choose|i: int| lies_toward(from, to, queen_directions(), i);
        if i < 4 {
            assert(lies_toward(from, to, bishop_directions(), i));
        } else {
            assert(lies_toward(from, to, rook_directions(), i - 4));
        }
    }
}

/// A square is a knight's leap away exactly when it is one of the knight's steps away.
pub proof fn lemma_knight_steps(from: Square, to: Square)
    ensures
        knight_step(from, to) <==> exists|i: int| lies_at(from, to, knight_directions(), i),
{
    if knight_step(from, to) {
        let i = lemma_knight_index(to.f() - from.f(), to.r() - from.r());
        assert(lies_at(from, to, knight_directions(), i));
    }
    if exists|i: int| lies_at(from, to, knight_directions(), i) {
        let i = choose|i: int| lies_at(from, to, knight_directions(), i);
        lemma_knight_directions(i);
    }
}

/// A square is next to another exactly when it is one of the king's steps away.
pub proof fn lemma_king_steps(from: Square, to: Square)
    ensures
        king_step(from, to) <==> exists|i: int| lies_at(from, to, queen_directions(), i),
{
    lemma_idx_at(from);
    lemma_idx_at(to);
    if king_step(from, to) {
        let i = lemma_queen_index(to.f() - from.f(), to.r() - from.r());
        assert(lies_at(from, to, queen_directions(), i));
    }
    if exists|i: int| lies_at(from, to, queen_directions(), i) {
        let i = choose|i: int| lies_at(from, to, queen_directions(), i);
        lemma_queen_directions(i);
    }
}

/// The moves along the rays of a knight, bishop, rook, queen or king are the plain moves to
/// the squares that the piece attacks and that hold no piece of its side.
pub proof fn lemma_piece_moves(b: Seq<Piece>, rights: CastlingRights, from: Square, m: Move)
    ensures
        match piece_at(b, from).kind_spec() {
            Some(Kind::Knight) => table_moves(
                b,
                rights,
                from,
                rays(true, from, knight_directions()),
            ).contains(m),
            Some(Kind::Bishop) => table_moves(
                b,
                rights,
                from,
                rays(false, from, bishop_directions()),
            ).contains(m),
            Some(Kind::Rook) => table_moves(b, rights, from, rays(false, from, rook_directions())).contains(
                m,
            ),
            Some(Kind::Queen) => table_moves(
                b,
                rights,
                from,
                rays(false, from, queen_directions()),
            ).contains(m),
            Some(Kind::King) => table_moves(b, rights, from, rays(true, from, queen_directions())).contains(
                m,
            ),
            _ => false,
        } <==> piece_at(b, from).kind_spec() is Some && piece_at(b, from).kind_spec() != Some(
            Kind::Pawn,
        ) && m == plain(b, rights, from, m.to) && open_to(b, from, m.to) && attacks(b, from, m.to),
{
    match piece_at(b, from).kind_spec() {
        Some(Kind::Knight) => {
            lemma_leap_moves(b, rights, from, knight_directions(), m);
            lemma_knight_steps(from, m.to);
        },
        Some(Kind::Bishop) => {
            lemma_diagonal_directions(from, m.to);
            lemma_line_moves(b, rights, from, bishop_directions(), m);
        },
        Some(Kind::Rook) => {
            lemma_straight_directions(from, m.to);
            lemma_line_moves(b, rights, from, rook_directions(), m);
        },
        Some(Kind::Queen) => {
            lemma_queen_lines(from, m.to);
            lemma_line_moves(b, rights, from, queen_directions(), m);
        },
        Some(Kind::King) => {
            lemma_leap_moves(b, rights, from, queen_directions(), m);
            lemma_king_steps(from, m.to);
        },
        _ => {},
    }
}

/// Whether `m` is a move of the pawn of `c` on `from` made under `rights`, not yet flagged.
pub open spec fn pawn_move_of(c: Color, rights: CastlingRights, from: Square, m: Move) -> bool {
    m.piece == Piece::of_spec(c, Kind::Pawn) && m.from == from && m.rights == rights && !m.check
}

/// Whether `m` is a promotion to a knight, bishop, rook or queen of `c` if it reaches the
/// last rank of `c`, and an ordinary move otherwise.
pub open spec fn promotes_on_last_rank(c: Color, m: Move) -> bool {
    if m.to.r() == c.last_rank() {
        m.info matches Some(MoveInfo::Promoted { piece }) && (piece == Piece::of_spec(c, Kind::Knight)
            || piece == Piece::of_spec(c, Kind::Bishop) || piece == Piece::of_spec(c, Kind::Rook)
            || piece == Piece::of_spec(c, Kind::Queen))
    } else {
        m.info is None
    }
}

/// The arrivals of a pawn on a square are the moves there that promote it exactly on its
/// last rank.
pub proof fn lemma_arrivals(
    c: Color,
    rights: CastlingRights,
    from: Square,
    to: Square,
    captured: Piece,
    m: Move,
)
    ensures
        arrivals(c, rights, from, to, captured).contains(m) <==> pawn_move_of(c, rights, from, m)
            && m.to == to && m.captured == captured && promotes_on_last_rank(c, m),
{
    let all = arrivals(c, rights, from, to, captured);
    if all.contains(m) {
        let i = choose|i: int| 0 <= i < all.len() && all[i] == m;
        if to.r() == c.last_rank() {
            assert(i == 0 || i == 1 || i == 2 || i == 3);
        } else {
            assert(i == 0);
        }
    }
    if pawn_move_of(c, rights, from, m) && m.to == to && m.captured == captured
        && promotes_on_last_rank(c, m) {
        if to.r() == c.last_rank() {
            let piece = m.info->Some_0->piece;
            if piece == Piece::of_spec(c, Kind::Knight) {
                assert(all[0] == m);
            } else if piece == Piece::of_spec(c, Kind::Bishop) {
                assert(all[1] == m);
            } else if piece == Piece::of_spec(c, Kind::Rook) {
                assert(all[2] == m);
            } else {
                assert(all[3] == m);
            }
        } else {
            assert(all[0] == m);
        }
    }
}

/// The advances generated for a pawn are the moves by which it advances.
pub proof fn lemma_pawn_pushes(b: Seq<Piece>, rights: CastlingRights, c: Color, from: Square, m: Move)
    ensures
        pawn_pushes(b, rights, c, from).contains(m) <==> pawn_move_of(c, rights, from, m)
            && m.captured == Piece::Empty && pawn_advances(b, c, from, m.to) && promotes_on_last_rank(
            c,
            m,
        ),
{
    let f = from.f();
    let r1 = from.r() + c.forward();
    let r2 = r1 + c.forward();
    let one = Square::at_coords(f, r1);
    let two = Square::at_coords(f, r2);
    let pushes = pawn_pushes(b, rights, c, from);
    let single = arrivals(c, rights, from, one, Piece::Empty);
    let twice = Move {
        piece: Piece::of_spec(c, Kind::Pawn),
        from,
        to: two,
        captured: Piece::Empty,
        info: None,
        check: false,
        rights,
    };
    let double = if from.r() == c.pawn_rank() && piece_at(b, two) == Piece::Empty {
        seq![twice]
    } else {
        Seq::empty()
    };
    lemma_idx_at(from);
    lemma_idx_at(m.to);
    lemma_arrivals(c, rights, from, one, Piece::Empty, m);
    lemma_contains_add(single, double, m);
    if inside(f, r1) {
        lemma_at_coords(f, r1);
    }
    if inside(f, r2) {
        lemma_at_coords(f, r2);
    }
    if pushes.contains(m) {
        if !single.contains(m) {
            assert(double[0] == m);
        }
    }
    if pawn_move_of(c, rights, from, m) && m.captured == Piece::Empty && pawn_advances(
        b,
        c,
        from,
        m.to,
    ) && promotes_on_last_rank(c, m) {
        if m.to.r() == r1 {
            assert(m.to == one);
        } else {
            assert(m.to == two);
            assert(m == twice);
            assert(double[0] == m);
        }
    }
}

/// The capture generated for a pawn towards one side is the move by which it takes there.
pub proof fn lemma_pawn_capture(
    b: Seq<Piece>,
    rights: CastlingRights,
    c: Color,
    from: Square,
    side: int,
    m: Move,
)
    requires
        side == 1 || side == -1,
    ensures
        pawn_capture(b, rights, c, from, side).contains(m) <==> pawn_move_of(c, rights, from, m)
            && m.captured == piece_at(b, m.to) && pawn_takes(b, c, from, m.to) && m.to.f() == from.f()
            + side && promotes_on_last_rank(c, m),
{
    let f = from.f() + side;
    let r = from.r() + c.forward();
    let to = Square::at_coords(f, r);
    lemma_idx_at(from);
    lemma_idx_at(m.to);
    lemma_arrivals(c, rights, from, to, piece_at(b, to), m);
    if inside(f, r) {
        lemma_at_coords(f, r);
    }
}

/// The capture in passing generated for a pawn towards one side is the move by which it
/// takes there the pawn that has just passed.
pub proof fn lemma_en_passant(
    b: Seq<Piece>,
    rights: CastlingRights,
    last: Option<Move>,
    c: Color,
    from: Square,
    side: int,
    m: Move,
)
    requires
        side == 1 || side == -1,
    ensures
        en_passant(b, rights, last, c, from, side).contains(m) <==> pawn_move_of(c, rights, from, m)
            && m.info == Some(MoveInfo::EnPassant) && m.to.f() == from.f() + side && m.captured
            == Piece::of_spec(c.other(), Kind::Pawn) && pawn_attack(c, from, m.to) && piece_at(b, m.to)
            == Piece::Empty && piece_at(b, passed(m)) == m.captured && (last matches Some(l)
            && double_push(c.other(), l) && l.to == passed(m)),
{
    let f = from.f() + side;
    let r = from.r() + c.forward();
    let all = en_passant(b, rights, last, c, from, side);
    lemma_idx_at(from);
    lemma_idx_at(m.to);
    if last is Some {
        lemma_idx_at(last->Some_0.to);
    }
    if inside(f, r) {
        lemma_at_coords(f, r);
    }
    if inside(f, from.r()) {
        lemma_at_coords(f, from.r());
    }
    if inside(m.to.f(), from.r()) {
        lemma_at_coords(m.to.f(), from.r());
    }
    if all.contains(m) {
        assert(all[0] == m);
    }
    if pawn_move_of(c, rights, from, m) && m.info == Some(MoveInfo::EnPassant) && m.to.f()
        == from.f() + side && m.captured == Piece::of_spec(c.other(), Kind::Pawn) && pawn_attack(
        c,
        from,
        m.to,
    ) && piece_at(b, m.to) == Piece::Empty && piece_at(b, passed(m)) == m.captured && (
    last matches Some(l) && double_push(c.other(), l) && l.to == passed(m)) {
        assert(m.to == Square::at_coords(f, r));
        assert(all[0] == m);
    }
}

/// The moves generated for a pawn are the moves that it may make.
pub proof fn lemma_pawn_moves(
    b: Seq<Piece>,
    rights: CastlingRights,
    last: Option<Move>,
    c: Color,
    from: Square,
    m: Move,
)
    requires
        piece_at(b, from) == Piece::of_spec(c, Kind::Pawn),
    ensures
        pawn_moves(b, rights, last, c, from).contains(m) <==> m.from == from && pseudo_legal(
            b,
            rights,
            last,
            c,
            m,
        ),
{
    let pushes = pawn_pushes(b, rights, c, from);
    let left = pawn_capture(b, rights, c, from, -1);
    let right = pawn_capture(b, rights, c, from, 1);
    let pass_left = en_passant(b, rights, last, c, from, -1);
    let pass_right = en_passant(b, rights, last, c, from, 1);
    lemma_contains_add(pushes + left + right + pass_left, pass_right, m);
    lemma_contains_add(pushes + left + right, pass_left, m);
    lemma_contains_add(pushes + left, right, m);
    lemma_contains_add(pushes, left, m);
    lemma_pawn_pushes(b, rights, c, from, m);
    lemma_pawn_capture(b, rights, c, from, -1, m);
    lemma_pawn_capture(b, rights, c, from, 1, m);
    lemma_en_passant(b, rights, last, c, from, -1, m);
    lemma_en_passant(b, rights, last, c, from, 1, m);
}

/// The castling generated for a side is the king's move to its castled square, where the
/// side may castle.
pub proof fn lemma_castle(b: Seq<Piece>, rights: CastlingRights, c: Color, kside: bool, m: Move)
    ensures
        castle(b, rights, c, kside).contains(m) <==> may_castle(b, rights, c, kside) && m == (Move {
            piece: Piece::of_spec(c, Kind::King),
            from: king_home(c),
            to: king_castled(c, kside),
            captured: Piece::Empty,
            info: Some(MoveInfo::Castled),
            check: false,
            rights,
        }),
{
    let all = castle(b, rights, c, kside);
    if all.contains(m) {
        assert(all[0] == m);
    }
    if may_castle(b, rights, c, kside) {
        assert(all.contains(all[0]));
    }
}

/// The moves generated for a king are the moves that it may make.
pub proof fn lemma_king_moves(
    b: Seq<Piece>,
    rights: CastlingRights,
    last: Option<Move>,
    c: Color,
    from: Square,
    m: Move,
)
    requires
        piece_at(b, from) == Piece::of_spec(c, Kind::King),
    ensures
        king_moves(b, rights, c, from).contains(m) <==> m.from == from && pseudo_legal(
            b,
            rights,
            last,
            c,
            m,
        ),
{
    let steps = table_moves(b, rights, from, rays(true, from, queen_directions()));
    let castles = if from == king_home(c) {
        castle(b, rights, c, true) + castle(b, rights, c, false)
    } else {
        Seq::empty()
    };
    lemma_contains_add(steps, castles, m);
    lemma_contains_add(castle(b, rights, c, true), castle(b, rights, c, false), m);
    lemma_castle(b, rights, c, true, m);
    lemma_castle(b, rights, c, false, m);
    lemma_piece_moves(b, rights, from, m);
}

/// The moves generated for the piece on a square are the moves that it may make.
pub proof fn lemma_moves_from(
    b: Seq<Piece>,
    rights: CastlingRights,
    last: Option<Move>,
    c: Color,
    from: Square,
    m: Move,
)
    ensures
        moves_from(b, rights, last, c, from).contains(m) <==> m.from == from && pseudo_legal(
            b,
            rights,
            last,
            c,
            m,
        ),
{
    if piece_at(b, from).is_color(c) {
        match piece_at(b, from).kind_spec() {
            Some(Kind::Pawn) => lemma_pawn_moves(b, rights, last, c, from, m),
            Some(Kind::King) => lemma_king_moves(b, rights, last, c, from, m),
            _ => lemma_piece_moves(b, rights, from, m),
        }
    }
}

/// The moves generated for the first `n` squares are the moves that the pieces on them may make.
pub proof fn lemma_moves_upto(
    b: Seq<Piece>,
    rights: CastlingRights,
    last: Option<Move>,
    c: Color,
    n: nat,
    m: Move,
)
    requires
        n <= 64,
    ensures
        moves_upto(b, rights, last, c, n).contains(m) <==> m.from.idx() < n && pseudo_legal(
            b,
            rights,
            last,
            c,
            m,
        ),
    decreases n,
{
    lemma_idx_at(m.from);
    if n > 0 {
        let before = moves_upto(b, rights, last, c, (n - 1) as nat);
        let here = moves_from(b, rights, last, c, Square::at(n - 1));
        lemma_contains_add(before, here, m);
        lemma_moves_upto(b, rights, last, c, (n - 1) as nat, m);
        lemma_moves_from(b, rights, last, c, Square::at(n - 1), m);
        lemma_at_idx(n - 1);
    }
}

/// The moves generated for a position, before those that leave the mover's king attacked
/// are removed, are exactly the moves the side to move may make by the way pieces move.
pub proof fn lemma_pseudo_legal_moves(s: Position, m: Move)
    ensures
        s.pseudo_legal_moves().contains(m) <==> pseudo_legal(s.board, s.rights, s.last(), s.side(), m),
{
    lemma_idx_at(m.from);
    lemma_moves_upto(s.board, s.rights, s.last(), s.side(), 64, m);
}

/// The legal moves of a position are exactly the moves that the side to move may make by
/// the way pieces move, that do not leave its king attacked, and that carry the check flag
/// when and only when they leave the other king attacked.
pub proof fn lemma_legal_moves(s: Position, m: Move)
    ensures
        s.legal_moves().contains(m) <==> {
            &&& pseudo_legal(s.board, s.rights, s.last(), s.side(), flagged(m, false))
            &&& !king_in_check(apply_board(s.board, m), s.side())
            &&& m.check == king_in_check(apply_board(s.board, m), s.side().other())
        },
{
    let candidates = s.pseudo_legal_moves();
    lemma_finish_contains(s.board, s.side(), candidates, m);
    lemma_pseudo_legal_moves(s, flagged(m, false));
    if s.legal_moves().contains(m) {
        let k = choose|k: int| kept_at(s.board, s.side(), candidates, m, k);
        lemma_pseudo_legal_moves(s, candidates[k]);
        assert(candidates[k] == flagged(m, false));
    }
    if pseudo_legal(s.board, s.rights, s.last(), s.side(), flagged(m, false)) && !king_in_check(
        apply_board(s.board, m),
        s.side(),
    ) && m.check == king_in_check(apply_board(s.board, m), s.side().other()) {
        let k = choose|k: int| 0 <= k < candidates.len() && candidates[k] == flagged(m, false);
        assert(kept_at(s.board, s.side(), candidates, m, k));
    }
}

/// Taking back a move that has just been made gives the placement it was made on.
pub proof fn lemma_make_unmake(
    b: Seq<Piece>,
    rights: CastlingRights,
    last: Option<Move>,
    c: Color,
    m: Move,
)
    requires
        b.len() == 64,
        pseudo_legal(b, rights, last, c, flagged(m, false)),
    ensures
        undoable(apply_board(b, m), m),
        revert_board(apply_board(b, m), m) == b,
{
    let hr = c.home_rank() as int;
    lemma_idx_at(m.from);
    lemma_idx_at(m.to);
    match m.info {
        Some(MoveInfo::EnPassant) => {
            lemma_at_coords(m.to.f(), m.from.r());
        },
        Some(MoveInfo::Castled) => {
            lemma_at_coords(0, hr);
            lemma_at_coords(2, hr);
            lemma_at_coords(3, hr);
            lemma_at_coords(4, hr);
            lemma_at_coords(5, hr);
            lemma_at_coords(6, hr);
            lemma_at_coords(7, hr);
            lemma_castling_path(b, c, true);
            lemma_castling_path(b, c, false);
        },
        _ => {},
    }
    assert(revert_board(apply_board(b, m), m) =~= b);
}

/// Applying a legal move and taking it back restores the position: board, castling rights
/// and history.
pub proof fn lemma_apply_undo(s: Position, m: Move)
    requires
        s.board.len() == 64,
        s.legal_moves().contains(m),
    ensures
        s.apply(m).can_undo(),
        s.apply(m).undo() == s,
{
    lemma_legal_moves(s, m);
    lemma_make_unmake(s.board, s.rights, s.last(), s.side(), m);
    assert(s.history.push(m).drop_last() =~= s.history);
}

/// What holds of every legal move `m` of a position whose side to move is `c`: it leaves a
/// square for another; the piece moved is a piece of `c`; what is taken, if anything, is a
/// piece of the other side; only a pawn reaching its last rank is promoted; only a pawn takes
/// in passing, diagonally ahead onto an empty square, the pawn on the square beside it that
/// the last move advanced two squares; only the king castles, two files along its home rank,
/// where `may_castle` allows it.
pub open spec fn well_formed_move(s: Position, m: Move) -> bool {
    let c = s.side();
    &&& m.from != m.to
    &&& m.piece != Piece::Empty
    &&& m.piece == piece_at(s.board, m.from)
    &&& m.piece.is_color(c)
    &&& m.rights == s.rights
    &&& m.captured != Piece::Empty ==> m.captured.is_color(c.other())
    &&& m.info is None ==> m.captured == piece_at(s.board, m.to)
    &&& m.info matches Some(MoveInfo::Promoted { piece }) ==> {
        &&& m.piece == Piece::of_spec(c, Kind::Pawn)
        &&& m.to.r() == c.last_rank()
        &&& m.captured == piece_at(s.board, m.to)
        &&& piece.is_color(c)
        &&& piece.kind_spec() != Some(Kind::Pawn)
        &&& piece.kind_spec() != Some(Kind::King)
    }
    &&& m.piece == Piece::of_spec(c, Kind::Pawn) && m.to.r() == c.last_rank() ==> m.info is Some
        && m.info->Some_0 is Promoted
    &&& m.info == Some(MoveInfo::EnPassant) ==> {
        &&& m.piece == Piece::of_spec(c, Kind::Pawn)
        &&& m.captured == Piece::of_spec(c.other(), Kind::Pawn)
        &&& abs(m.to.f() - m.from.f()) == 1
        &&& m.to.r() == m.from.r() + c.forward()
        &&& m.from.r() == c.other().pawn_rank() + 2 * c.other().forward()
        &&& piece_at(s.board, m.to) == Piece::Empty
        &&& piece_at(s.board, passed(m)) == m.captured
        &&& s.last() matches Some(l) && double_push(c.other(), l) && l.to == passed(m)
    }
    &&& m.info == Some(MoveInfo::Castled) ==> {
        &&& m.piece == Piece::of_spec(c, Kind::King)
        &&& m.captured == Piece::Empty
        &&& abs(m.to.f() - m.from.f()) == 2
        &&& m.from.r() == c.home_rank()
        &&& m.to.r() == c.home_rank()
        &&& may_castle(s.board, s.rights, c, m.to.f() > m.from.f())
    }
}

/// Every legal move is well formed.
pub proof fn lemma_legal_move_is_well_formed(s: Position, m: Move)
    requires
        s.legal_moves().contains(m),
    ensures
        well_formed_move(s, m),
{
    let c = s.side();
    let hr = c.home_rank() as int;
    lemma_legal_moves(s, m);
    lemma_idx_at(m.from);
    lemma_idx_at(m.to);
    match m.info {
        Some(MoveInfo::EnPassant) => {
            lemma_at_coords(m.to.f(), m.from.r());
        },
        Some(MoveInfo::Castled) => {
            lemma_at_coords(2, hr);
            lemma_at_coords(4, hr);
            lemma_at_coords(6, hr);
        },
        _ => {},
    }
}

/// Whether the moves of `moves` come in the order of the squares they leave.
pub open spec fn ordered_by_origin(moves: Seq<Move>) -> bool {
    forall|i: int, j: int|
        0 <= i <= j < moves.len() ==> (#[trigger] moves[i]).from.idx() <= (#[trigger] moves[j]).from.idx()
}

/// The moves generated for the first `n` squares come in the order of the squares they leave.
pub proof fn lemma_moves_upto_ordered(
    b: Seq<Piece>,
    rights: CastlingRights,
    last: Option<Move>,
    c: Color,
    n: nat,
)
    requires
        n <= 64,
    ensures
        ordered_by_origin(moves_upto(b, rights, last, c, n)),
    decreases n,
{
    if n > 0 {
        let before = moves_upto(b, rights, last, c, (n - 1) as nat);
        let here = moves_from(b, rights, last, c, Square::at(n - 1));
        let all = moves_upto(b, rights, last, c, n);
        lemma_moves_upto_ordered(b, rights, last, c, (n - 1) as nat);
        lemma_at_idx(n - 1);
        assert forall|i: int, j: int| 0 <= i <= j < all.len() implies (#[trigger] all[i]).from.idx() <= (
        #[trigger] all[j]).from.idx() by {
            if i < before.len() {
                assert(before.contains(before[i]));
                lemma_moves_upto(b, rights, last, c, (n - 1) as nat, all[i]);
            } else {
                assert(here.contains(here[i - before.len()]));
                lemma_moves_from(b, rights, last, c, Square::at(n - 1), all[i]);
            }
            if j < before.len() {
                assert(before.contains(before[j]));
                lemma_moves_upto(b, rights, last, c, (n - 1) as nat, all[j]);
            } else {
                assert(here.contains(here[j - before.len()]));
                lemma_moves_from(b, rights, last, c, Square::at(n - 1), all[j]);
            }
        }
    }
}

/// Keeping the moves that leave the mover's king unattacked keeps their order.
pub proof fn lemma_finish_ordered(b: Seq<Piece>, c: Color, candidates: Seq<Move>)
    requires
        ordered_by_origin(candidates),
    ensures
        ordered_by_origin(finish(b, c, candidates)),
    decreases candidates.len(),
{
    if candidates.len() > 0 {
        let front = candidates.drop_last();
        let before = finish(b, c, front);
        let all = finish(b, c, candidates);
        assert forall|i: int, j: int| 0 <= i <= j < front.len() implies (#[trigger] front[i]).from.idx() <= (
        #[trigger] front[j]).from.idx() by {
            assert(front[i] == candidates[i] && front[j] == candidates[j]);
        }
        lemma_finish_ordered(b, c, front);
        assert forall|i: int, j: int| 0 <= i <= j < all.len() implies (#[trigger] all[i]).from.idx() <= (
        #[trigger] all[j]).from.idx() by {
            if j >= before.len() && i < before.len() {
                assert(before.contains(before[i]));
                lemma_finish_contains(b, c, front, before[i]);
                let k = choose|k: int| kept_at(b, c, front, before[i], k);
                assert(front[k] == candidates[k]);
                assert(candidates[k].from.idx() <= candidates[candidates.len() - 1].from.idx());
            }
        }
    }
}

/// The legal moves of a position come in the order of the squares they leave.
pub proof fn lemma_legal_moves_ordered(s: Position)
    ensures
        ordered_by_origin(s.legal_moves()),
{
    lemma_moves_upto_ordered(s.board, s.rights, s.last(), s.side(), 64);
    lemma_finish_ordered(s.board, s.side(), s.pseudo_legal_moves());
}

} // verus!
