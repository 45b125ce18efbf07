use vstd::prelude::*;
use crate::board::Board;
use crate::piece::{Color, Kind, Piece};
use crate::rays::{
    bishop_directions, knight_directions, lists, queen_directions, ray, rays, rook_directions, walk,
    Direction, PseudoMoves, RayTables,
};
use crate::square::{
    file, inside, lemma_at_coords, lemma_idx_at, on_board, rank, square_at, File, Rank, Square,
};

verus! {

/// The piece that a placement holds on `sq`.
pub open spec fn piece_at(b: Seq<Piece>, sq: Square) -> Piece {
    b[sq.idx()]
}

/// The distance of `x` from zero.
pub open spec fn abs(x: int) -> int {
    if x < 0 {
        -x
    } else {
        x
    }
}

/// `1`, `-1` or `0` as `x` is above, below or at zero.
pub open spec fn sign(x: int) -> int {
    if x > 0 {
        1
    } else if x < 0 {
        -1
    } else {
        0
    }
}

/// Whether `y` lies strictly between `x` and `z`.
pub open spec fn strictly(x: int, y: int, z: int) -> bool {
    x < y < z || z < y < x
}

/// Whether `a` and `b` are different squares of one file or one rank.
pub open spec fn straight(a: Square, b: Square) -> bool {
    a != b && (a.f() == b.f() || a.r() == b.r())
}

/// Whether `a` and `b` are different squares of one diagonal.
pub open spec fn diagonal(a: Square, b: Square) -> bool {
    a != b && (a.f() - a.r() == b.f() - b.r() || a.f() + a.r() == b.f() + b.r())
}

/// Whether `c` lies on the line from `a` to `b`, strictly between the two.
pub open spec fn between(a: Square, b: Square, c: Square) -> bool {
    ||| a.r() == b.r() && c.r() == a.r() && strictly(a.f(), c.f(), b.f())
    ||| a.f() == b.f() && c.f() == a.f() && strictly(a.r(), c.r(), b.r())
    ||| a.f() - a.r() == b.f() - b.r() && c.f() - c.r() == a.f() - a.r() && strictly(
        a.f(),
        c.f(),
        b.f(),
    )
    ||| a.f() + a.r() == b.f() + b.r() && c.f() + c.r() == a.f() + a.r() && strictly(
        a.f(),
        c.f(),
        b.f(),
    )
}

/// Whether every square strictly between `a` and `c` is empty.
pub open spec fn clear(b: Seq<Piece>, a: Square, c: Square) -> bool {
    forall|m: Square| #[trigger] between(a, c, m) ==> piece_at(b, m) == Piece::Empty
}

/// Whether `b` is a knight's leap away from `a`.
pub open spec fn knight_step(a: Square, b: Square) -> bool {
    ||| abs(b.f() - a.f()) == 1 && abs(b.r() - a.r()) == 2
    ||| abs(b.f() - a.f()) == 2 && abs(b.r() - a.r()) == 1
}

/// Whether `b` is next to `a`.
pub open spec fn king_step(a: Square, b: Square) -> bool {
    a != b && abs(b.f() - a.f()) <= 1 && abs(b.r() - a.r()) <= 1
}

/// Whether a pawn of `color` on `a` attacks `b`: one rank forward, one file aside.
pub open spec fn pawn_attack(color: Color, a: Square, b: Square) -> bool {
    abs(b.f() - a.f()) == 1 && b.r() - a.r() == color.forward()
}

/// Whether the piece on `from` attacks `to` by the way it moves, whatever `to` holds.
pub open spec fn attacks(b: Seq<Piece>, from: Square, to: Square) -> bool {
    match piece_at(b, from).kind_spec() {
        None => false,
        Some(Kind::Pawn) => pawn_attack(piece_at(b, from).color_spec()->Some_0, from, to),
        Some(Kind::Knight) => knight_step(from, to),
        Some(Kind::King) => king_step(from, to),
        Some(Kind::Bishop) => diagonal(from, to) && clear(b, from, to),
        Some(Kind::Rook) => straight(from, to) && clear(b, from, to),
        Some(Kind::Queen) => (diagonal(from, to) || straight(from, to)) && clear(b, from, to),
    }
}

/// Whether some piece of `by` attacks `from` onto `target`.
pub open spec fn attacker(b: Seq<Piece>, target: Square, by: Color, from: Square) -> bool {
    piece_at(b, from).is_color(by) && attacks(b, from, target)
}

/// Whether `target` is attacked by `by`: it holds no piece of `by`, and some piece of `by`
/// could move or capture onto it, a pawn counting for its two capture squares only.
pub open spec fn attacked(b: Seq<Piece>, target: Square, by: Color) -> bool {
    !piece_at(b, target).is_color(by) && exists|from: Square| attacker(b, target, by, from)
}

/// Whether `k` is the first occupied square of `ray` and holds `pa` or `pb`.
pub open spec fn hit_at(b: Seq<Piece>, ray: Seq<Square>, k: int, pa: Piece, pb: Piece) -> bool {
    &&& 0 <= k < ray.len()
    &&& (piece_at(b, ray[k]) == pa || piece_at(b, ray[k]) == pb)
    &&& forall|m: int| 0 <= m < k ==> piece_at(b, #[trigger] ray[m]) == Piece::Empty
}

/// Whether the first piece met along `ray` is `pa` or `pb`.
pub open spec fn ray_hits(b: Seq<Piece>, ray: Seq<Square>, pa: Piece, pb: Piece) -> bool {
    exists|k: int| hit_at(b, ray, k, pa, pb)
}

/// Whether the first piece met along one of the rays `rs` is `pa` or `pb`.
pub open spec fn any_ray_hits(b: Seq<Piece>, rs: Seq<Seq<Square>>, pa: Piece, pb: Piece) -> bool {
    exists|j: int| 0 <= j < rs.len() && ray_hits(b, #[trigger] rs[j], pa, pb)
}

/// Whether a pawn of `by` stands where it attacks `target` from the file `side` files away.
pub open spec fn pawn_source(b: Seq<Piece>, target: Square, by: Color, side: int) -> bool {
    &&& inside(target.f() + side, target.r() - by.forward())
    &&& piece_at(b, Square::at_coords(target.f() + side, target.r() - by.forward())) == Piece::of_spec(
        by,
        Kind::Pawn,
    )
}

/// What a search outward from `target` finds: a knight a leap away, a king next to it, a pawn
/// on one of the two squares it is attacked from, or a line piece first along a ray.
pub open spec fn scan(b: Seq<Piece>, target: Square, by: Color) -> bool {
    let n = Piece::of_spec(by, Kind::Knight);
    let k = Piece::of_spec(by, Kind::King);
    let bi = Piece::of_spec(by, Kind::Bishop);
    let ro = Piece::of_spec(by, Kind::Rook);
    let q = Piece::of_spec(by, Kind::Queen);
    ||| any_ray_hits(b, rays(true, target, knight_directions()), n, n)
    ||| any_ray_hits(b, rays(true, target, queen_directions()), k, k)
    ||| pawn_source(b, target, by, -1)
    ||| pawn_source(b, target, by, 1)
    ||| any_ray_hits(b, rays(false, target, bishop_directions()), bi, q)
    ||| any_ray_hits(b, rays(false, target, rook_directions()), ro, q)
}

/// `k` steps of size `d`, for a step of at most one.
pub open spec fn times(k: int, d: int) -> int {
    if d == 1 {
        k
    } else if d == -1 {
        -k
    } else {
        0
    }
}

/// Whether `(df, dr)` is one of the eight steps to a neighbouring square.
pub open spec fn unit(df: int, dr: int) -> bool {
    -1 <= df <= 1 && -1 <= dr <= 1 && (df != 0 || dr != 0)
}

/// Whether `from` lies on the line that leaves `t` in direction `(df, dr)`.
pub open spec fn toward(t: Square, from: Square, df: int, dr: int) -> bool {
    &&& unit(df, dr)
    &&& sign(from.f() - t.f()) == df
    &&& sign(from.r() - t.r()) == dr
    &&& (df == 0 || dr == 0 || abs(from.f() - t.f()) == abs(from.r() - t.r()))
}

/// The larger of the file distance and the rank distance.
pub open spec fn dist(a: Square, b: Square) -> int {
    if abs(a.f() - b.f()) >= abs(a.r() - b.r()) {
        abs(a.f() - b.f())
    } else {
        abs(a.r() - b.r())
    }
}

/// The square at position `m` of a walk is `m + 1` steps from its start, and on the board.
pub proof fn lemma_walk_index(f: int, r: int, df: int, dr: int, limit: nat, m: int)
    requires
        inside(f, r),
        -1 <= df <= 1,
        -1 <= dr <= 1,
        0 <= m < walk(f, r, df, dr, limit).len(),
    ensures
        m < limit,
        inside(f + times(m + 1, df), r + times(m + 1, dr)),
        walk(f, r, df, dr, limit)[m] == Square::at_coords(
            f + times(m + 1, df),
            r + times(m + 1, dr),
        ),
    decreases limit,
{
    if m > 0 {
        lemma_walk_index(f + df, r + dr, df, dr, (limit - 1) as nat, m - 1);
    }
}

/// A walk is at least as long as the number of steps that is known to stay on the board.
pub proof fn lemma_walk_reaches(f: int, r: int, df: int, dr: int, limit: nat, n: int)
    requires
        inside(f, r),
        -1 <= df <= 1,
        -1 <= dr <= 1,
        1 <= n <= limit,
        inside(f + times(n, df), r + times(n, dr)),
    ensures
        walk(f, r, df, dr, limit).len() >= n,
    decreases n,
{
    if n > 1 {
        lemma_walk_reaches(f + df, r + dr, df, dr, (limit - 1) as nat, n - 1);
    }
}

/// A ray cut to one step holds the neighbouring square in its direction, if there is one.
pub proof fn lemma_ray_once(t: Square, d: Direction)
    ensures
        ray(true, t, d) == (if inside(t.f() + d.0, t.r() + d.1) {
            seq![Square::at_coords(t.f() + d.0, t.r() + d.1)]
        } else {
            Seq::<Square>::empty()
        }),
{
    reveal_with_fuel(walk, 2);
    let expected = if inside(t.f() + d.0, t.r() + d.1) {
        seq![Square::at_coords(t.f() + d.0, t.r() + d.1)]
    } else {
        Seq::<Square>::empty()
    };
    assert(ray(true, t, d) =~= expected);
}

/// Every ray kept for a square is the ray of one of the directions.
pub proof fn lemma_rays_from(once: bool, sq: Square, dirs: Seq<Direction>, j: int) -> (i: int)
    requires
        0 <= j < rays(once, sq, dirs).len(),
    ensures
        0 <= i < dirs.len(),
        rays(once, sq, dirs)[j] == ray(once, sq, dirs[i]),
    decreases dirs.len(),
{
    let before = rays(once, sq, dirs.drop_last());
    if j < before.len() {
        lemma_rays_from(once, sq, dirs.drop_last(), j)
    } else {
        dirs.len() - 1
    }
}

/// The ray of every direction is kept for a square, unless it is empty.
pub proof fn lemma_rays_has(once: bool, sq: Square, dirs: Seq<Direction>, i: int) -> (j: int)
    requires
        0 <= i < dirs.len(),
        ray(once, sq, dirs[i]).len() > 0,
    ensures
        0 <= j < rays(once, sq, dirs).len(),
        rays(once, sq, dirs)[j] == ray(once, sq, dirs[i]),
    decreases dirs.len(),
{
    let before = rays(once, sq, dirs.drop_last());
    if i < dirs.len() - 1 {
        lemma_rays_has(once, sq, dirs.drop_last(), i)
    } else {
        before.len() as int
    }
}

/// The piece first met along a ray stands on the line of that ray, with nothing in between.
pub proof fn lemma_hit_source(b: Seq<Piece>, t: Square, d: Direction, k: int, pa: Piece, pb: Piece)
    requires
        unit(d.0 as int, d.1 as int),
        hit_at(b, ray(false, t, d), k, pa, pb),
    ensures
        toward(t, ray(false, t, d)[k], d.0 as int, d.1 as int),
        clear(b, ray(false, t, d)[k], t),
{
    let line = ray(false, t, d);
    let from = line[k];
    let df = d.0 as int;
    let dr = d.1 as int;
    lemma_idx_at(t);
    lemma_walk_index(t.f(), t.r(), df, dr, 7, k);
    lemma_at_coords(t.f() + times(k + 1, df), t.r() + times(k + 1, dr));
    assert forall|c: Square| #[trigger] between(from, t, c) implies piece_at(b, c) == Piece::Empty by {
        lemma_idx_at(c);
        let j = dist(t, c);
        lemma_walk_index(t.f(), t.r(), df, dr, 7, j - 1);
        assert(line[j - 1] == c);
    }
}

/// A square on the line of a ray, with nothing in between, is a square of the ray, and the
/// squares of the ray before it are empty.
pub proof fn lemma_sight(b: Seq<Piece>, t: Square, d: Direction, from: Square) -> (k: int)
    requires
        toward(t, from, d.0 as int, d.1 as int),
        clear(b, from, t),
    ensures
        0 <= k < ray(false, t, d).len(),
        ray(false, t, d)[k] == from,
        forall|m: int| 0 <= m < k ==> piece_at(b, #[trigger] ray(false, t, d)[m]) == Piece::Empty,
{
    let line = ray(false, t, d);
    let df = d.0 as int;
    let dr = d.1 as int;
    let n = dist(t, from);
    lemma_idx_at(t);
    lemma_idx_at(from);
    lemma_walk_reaches(t.f(), t.r(), df, dr, 7, n);
    lemma_walk_index(t.f(), t.r(), df, dr, 7, n - 1);
    assert(line[n - 1] == from);
    assert forall|m: int| 0 <= m < n - 1 implies piece_at(b, #[trigger] line[m]) == Piece::Empty by {
        lemma_walk_index(t.f(), t.r(), df, dr, 7, m);
        lemma_at_coords(t.f() + times(m + 1, df), t.r() + times(m + 1, dr));
        assert(between(from, t, line[m]));
    }
    n - 1
}

/// A piece on the line of a ray, with nothing in between, is the first met along the ray.
pub proof fn lemma_source_hit(b: Seq<Piece>, t: Square, d: Direction, from: Square, pa: Piece, pb: Piece)
    requires
        toward(t, from, d.0 as int, d.1 as int),
        clear(b, from, t),
        piece_at(b, from) == pa || piece_at(b, from) == pb,
    ensures
        ray_hits(b, ray(false, t, d), pa, pb),
{
    let k = lemma_sight(b, t, d, from);
    assert(hit_at(b, ray(false, t, d), k, pa, pb));
}

/// The squares between two squares are the same in either order.
pub proof fn lemma_clear_symmetric(b: Seq<Piece>, a: Square, c: Square)
    ensures
        clear(b, a, c) == clear(b, c, a),
{
    assert forall|m: Square| between(a, c, m) == between(c, a, m) by {}
    if clear(b, a, c) {
        assert forall|m: Square| #[trigger] between(c, a, m) implies piece_at(b, m) == Piece::Empty by {
            assert(between(a, c, m));
        }
    }
    if clear(b, c, a) {
        assert forall|m: Square| #[trigger] between(a, c, m) implies piece_at(b, m) == Piece::Empty by {
            assert(between(c, a, m));
        }
    }
}

/// A leaper found by following the one-step rays from `t` stands one of the steps away.
pub proof fn lemma_leaper_sound(b: Seq<Piece>, t: Square, dirs: Seq<Direction>, p: Piece) -> (r: (
    Square,
    int,
))
    requires
        any_ray_hits(b, rays(true, t, dirs), p, p),
    ensures
        piece_at(b, r.0) == p,
        0 <= r.1 < dirs.len(),
        r.0.f() == t.f() + dirs[r.1].0,
        r.0.r() == t.r() + dirs[r.1].1,
{
    let rs = rays(true, t, dirs);
    let j = choose|j: int| 0 <= j < rs.len() && ray_hits(b, #[trigger] rs[j], p, p);
    let i = lemma_rays_from(true, t, dirs, j);
    let k = choose|k: int| hit_at(b, rs[j], k, p, p);
    lemma_ray_once(t, dirs[i]);
    lemma_idx_at(t);
    lemma_at_coords(t.f() + dirs[i].0, t.r() + dirs[i].1);
    (rs[j][k], i)
}

/// A leaper one of the steps away from `t` is found by following the one-step rays from `t`.
pub proof fn lemma_leaper_complete(b: Seq<Piece>, t: Square, dirs: Seq<Direction>, i: int, p: Piece)
    requires
        0 <= i < dirs.len(),
        inside(t.f() + dirs[i].0, t.r() + dirs[i].1),
        piece_at(b, Square::at_coords(t.f() + dirs[i].0, t.r() + dirs[i].1)) == p,
    ensures
        any_ray_hits(b, rays(true, t, dirs), p, p),
{
    lemma_ray_once(t, dirs[i]);
    let line = ray(true, t, dirs[i]);
    assert(hit_at(b, line, 0, p, p));
    let j = lemma_rays_has(true, t, dirs, i);
    assert(ray_hits(b, rays(true, t, dirs)[j], p, p));
}

/// A line piece found first along a ray from `t` stands on that line, with nothing in between.
pub proof fn lemma_slider_sound(b: Seq<Piece>, t: Square, dirs: Seq<Direction>, pa: Piece, pb: Piece) -> (r:
    (Square, int))
    requires
        any_ray_hits(b, rays(false, t, dirs), pa, pb),
        forall|i: int| 0 <= i < dirs.len() ==> unit(#[trigger] dirs[i].0 as int, dirs[i].1 as int),
    ensures
        piece_at(b, r.0) == pa || piece_at(b, r.0) == pb,
        0 <= r.1 < dirs.len(),
        toward(t, r.0, dirs[r.1].0 as int, dirs[r.1].1 as int),
        clear(b, r.0, t),
{
    let rs = rays(false, t, dirs);
    let j = choose|j: int| 0 <= j < rs.len() && ray_hits(b, #[trigger] rs[j], pa, pb);
    let i = lemma_rays_from(false, t, dirs, j);
    let k = choose|k: int| hit_at(b, rs[j], k, pa, pb);
    assert(unit(dirs[i].0 as int, dirs[i].1 as int));
    lemma_hit_source(b, t, dirs[i], k, pa, pb);
    (rs[j][k], i)
}

/// A line piece on a line from `t`, with nothing in between, is found first along a ray from `t`.
pub proof fn lemma_slider_complete(
    b: Seq<Piece>,
    t: Square,
    dirs: Seq<Direction>,
    i: int,
    from: Square,
    pa: Piece,
    pb: Piece,
)
    requires
        0 <= i < dirs.len(),
        toward(t, from, dirs[i].0 as int, dirs[i].1 as int),
        clear(b, from, t),
        piece_at(b, from) == pa || piece_at(b, from) == pb,
    ensures
        any_ray_hits(b, rays(false, t, dirs), pa, pb),
{
    lemma_source_hit(b, t, dirs[i], from, pa, pb);
    let line = ray(false, t, dirs[i]);
    let k = choose|k: int| hit_at(b, line, k, pa, pb);
    let j = lemma_rays_has(false, t, dirs, i);
    assert(ray_hits(b, rays(false, t, dirs)[j], pa, pb));
}

/// The position of a knight's leap among the knight's directions.
pub proof fn lemma_knight_index(df: int, dr: int) -> (i: int)
    requires
        abs(df) == 1 && abs(dr) == 2 || abs(df) == 2 && abs(dr) == 1,
    ensures
        0 <= i < knight_directions().len(),
        knight_directions()[i].0 == df,
        knight_directions()[i].1 == dr,
{
    if df == -2 {
        if dr == -1 { 0 } else { 1 }
    } else if df == -1 {
        if dr == -2 { 2 } else { 3 }
    } else if df == 1 {
        if dr == -2 { 4 } else { 5 }
    } else {
        if dr == -1 { 6 } else { 7 }
    }
}

/// The position of a diagonal step among the bishop's directions.
pub proof fn lemma_bishop_index(df: int, dr: int) -> (i: int)
    requires
        abs(df) == 1,
        abs(dr) == 1,
    ensures
        0 <= i < bishop_directions().len(),
        bishop_directions()[i].0 == df,
        bishop_directions()[i].1 == dr,
{
    if df == 1 {
        if dr == 1 { 0 } else { 1 }
    } else {
        if dr == 1 { 2 } else { 3 }
    }
}

/// The position of a straight step among the rook's directions.
pub proof fn lemma_rook_index(df: int, dr: int) -> (i: int)
    requires
        abs(df) + abs(dr) == 1,
    ensures
        0 <= i < rook_directions().len(),
        rook_directions()[i].0 == df,
        rook_directions()[i].1 == dr,
{
    if df == 1 {
        0
    } else if df == -1 {
        1
    } else if dr == 1 {
        2
    } else {
        3
    }
}

/// The position of a step to a neighbouring square among the queen's directions.
pub proof fn lemma_queen_index(df: int, dr: int) -> (i: int)
    requires
        unit(df, dr),
    ensures
        0 <= i < queen_directions().len(),
        queen_directions()[i].0 == df,
        queen_directions()[i].1 == dr,
{
    if df != 0 && dr != 0 {
        lemma_bishop_index(df, dr)
    } else {
        lemma_rook_index(df, dr) + 4
    }
}

/// Every direction of a knight is a leap.
pub proof fn lemma_knight_directions(i: int)
    requires
        0 <= i < knight_directions().len(),
    ensures
        abs(knight_directions()[i].0 as int) == 1 && abs(knight_directions()[i].1 as int) == 2 || abs(
            knight_directions()[i].0 as int,
        ) == 2 && abs(knight_directions()[i].1 as int) == 1,
{
}

/// Every direction of a bishop is a diagonal step.
pub proof fn lemma_bishop_directions(i: int)
    requires
        0 <= i < bishop_directions().len(),
    ensures
        abs(bishop_directions()[i].0 as int) == 1,
        abs(bishop_directions()[i].1 as int) == 1,
{
}

/// Every direction of a rook is a straight step.
pub proof fn lemma_rook_directions(i: int)
    requires
        0 <= i < rook_directions().len(),
    ensures
        abs(rook_directions()[i].0 as int) + abs(rook_directions()[i].1 as int) == 1,
{
}

/// Every direction of a queen is a step to a neighbouring square.
pub proof fn lemma_queen_directions(i: int)
    requires
        0 <= i < queen_directions().len(),
    ensures
        unit(queen_directions()[i].0 as int, queen_directions()[i].1 as int),
{
    if i < 4 {
        lemma_bishop_directions(i);
    } else {
        lemma_rook_directions(i - 4);
    }
}

/// A knight found a leap away from `t` attacks `t`.
pub proof fn lemma_knight_found(b: Seq<Piece>, t: Square, by: Color) -> (from: Square)
    requires
        any_ray_hits(
            b,
            rays(true, t, knight_directions()),
            Piece::of_spec(by, Kind::Knight),
            Piece::of_spec(by, Kind::Knight),
        ),
    ensures
        attacker(b, t, by, from),
{
    let r = lemma_leaper_sound(b, t, knight_directions(), Piece::of_spec(by, Kind::Knight));
    lemma_knight_directions(r.1);
    r.0
}

/// A king found next to `t` attacks `t`.
pub proof fn lemma_king_found(b: Seq<Piece>, t: Square, by: Color) -> (from: Square)
    requires
        any_ray_hits(
            b,
            rays(true, t, queen_directions()),
            Piece::of_spec(by, Kind::King),
            Piece::of_spec(by, Kind::King),
        ),
    ensures
        attacker(b, t, by, from),
{
    let r = lemma_leaper_sound(b, t, queen_directions(), Piece::of_spec(by, Kind::King));
    lemma_queen_directions(r.1);
    lemma_idx_at(r.0);
    lemma_idx_at(t);
    r.0
}

/// A pawn found on one of the two squares from which it takes on `t` attacks `t`.
pub proof fn lemma_pawn_found(b: Seq<Piece>, t: Square, by: Color, side: int) -> (from: Square)
    requires
        side == 1 || side == -1,
        pawn_source(b, t, by, side),
    ensures
        attacker(b, t, by, from),
{
    lemma_at_coords(t.f() + side, t.r() - by.forward());
    Square::at_coords(t.f() + side, t.r() - by.forward())
}

/// A bishop or queen found first along a diagonal ray from `t` attacks `t`.
pub proof fn lemma_bishop_found(b: Seq<Piece>, t: Square, by: Color) -> (from: Square)
    requires
        any_ray_hits(
            b,
            rays(false, t, bishop_directions()),
            Piece::of_spec(by, Kind::Bishop),
            Piece::of_spec(by, Kind::Queen),
        ),
    ensures
        attacker(b, t, by, from),
{
    assert forall|i: int| 0 <= i < bishop_directions().len() implies unit(
        #[trigger] bishop_directions()[i].0 as int,
        bishop_directions()[i].1 as int,
    ) by {
        lemma_bishop_directions(i);
    }
    let r = lemma_slider_sound(
        b,
        t,
        bishop_directions(),
        Piece::of_spec(by, Kind::Bishop),
        Piece::of_spec(by, Kind::Queen),
    );
    lemma_bishop_directions(r.1);
    lemma_idx_at(r.0);
    lemma_idx_at(t);
    assert(diagonal(r.0, t));
    r.0
}

/// A rook or queen found first along a straight ray from `t` attacks `t`.
pub proof fn lemma_rook_found(b: Seq<Piece>, t: Square, by: Color) -> (from: Square)
    requires
        any_ray_hits(
            b,
            rays(false, t, rook_directions()),
            Piece::of_spec(by, Kind::Rook),
            Piece::of_spec(by, Kind::Queen),
        ),
    ensures
        attacker(b, t, by, from),
{
    assert forall|i: int| 0 <= i < rook_directions().len() implies unit(
        #[trigger] rook_directions()[i].0 as int,
        rook_directions()[i].1 as int,
    ) by {
        lemma_rook_directions(i);
    }
    let r = lemma_slider_sound(
        b,
        t,
        rook_directions(),
        Piece::of_spec(by, Kind::Rook),
        Piece::of_spec(by, Kind::Queen),
    );
    lemma_rook_directions(r.1);
    lemma_idx_at(r.0);
    lemma_idx_at(t);
    assert(straight(r.0, t));
    r.0
}

/// What the outward search finds is an attacker.
pub proof fn lemma_scan_sound(b: Seq<Piece>, t: Square, by: Color) -> (from: Square)
    requires
        scan(b, t, by),
    ensures
        attacker(b, t, by, from),
{
    let n = Piece::of_spec(by, Kind::Knight);
    let k = Piece::of_spec(by, Kind::King);
    let bi = Piece::of_spec(by, Kind::Bishop);
    let ro = Piece::of_spec(by, Kind::Rook);
    let q = Piece::of_spec(by, Kind::Queen);
    if any_ray_hits(b, rays(true, t, knight_directions()), n, n) {
        lemma_knight_found(b, t, by)
    } else if any_ray_hits(b, rays(true, t, queen_directions()), k, k) {
        lemma_king_found(b, t, by)
    } else if pawn_source(b, t, by, -1) {
        lemma_pawn_found(b, t, by, -1)
    } else if pawn_source(b, t, by, 1) {
        lemma_pawn_found(b, t, by, 1)
    } else if any_ray_hits(b, rays(false, t, bishop_directions()), bi, q) {
        lemma_bishop_found(b, t, by)
    } else {
        lemma_rook_found(b, t, by)
    }
}

/// Every attacker is found by the outward search.
pub proof fn lemma_scan_complete(b: Seq<Piece>, t: Square, by: Color, from: Square)
    requires
        attacker(b, t, by, from),
    ensures
        scan(b, t, by),
{
    let df = from.f() - t.f();
    let dr = from.r() - t.r();
    let p = piece_at(b, from);
    lemma_idx_at(t);
    lemma_idx_at(from);
    match p.kind_spec() {
        None => {},
        Some(Kind::Pawn) => {
            assert(pawn_source(b, t, by, df));
        },
        Some(Kind::Knight) => {
            let i = lemma_knight_index(df, dr);
            lemma_leaper_complete(b, t, knight_directions(), i, p);
        },
        Some(Kind::King) => {
            let i = lemma_queen_index(df, dr);
            lemma_leaper_complete(b, t, queen_directions(), i, p);
        },
        Some(Kind::Bishop) => {
            let i = lemma_bishop_index(sign(df), sign(dr));
            lemma_slider_complete(b, t, bishop_directions(), i, from, p, Piece::of_spec(by, Kind::Queen));
        },
        Some(Kind::Rook) => {
            let i = lemma_rook_index(sign(df), sign(dr));
            lemma_slider_complete(b, t, rook_directions(), i, from, p, Piece::of_spec(by, Kind::Queen));
        },
        Some(Kind::Queen) => {
            if diagonal(from, t) {
                let i = lemma_bishop_index(sign(df), sign(dr));
                lemma_slider_complete(b, t, bishop_directions(), i, from, Piece::of_spec(by, Kind::Bishop), p);
            } else {
                let i = lemma_rook_index(sign(df), sign(dr));
                lemma_slider_complete(b, t, rook_directions(), i, from, Piece::of_spec(by, Kind::Rook), p);
            }
        },
    }
}

/// A square is attacked exactly when it holds no piece of the attacking side and the
/// outward search finds an attacker.
pub proof fn lemma_attacked_iff_scan(b: Seq<Piece>, t: Square, by: Color)
    ensures
        attacked(b, t, by) <==> !piece_at(b, t).is_color(by) && scan(b, t, by),
{
    if scan(b, t, by) {
        let from = lemma_scan_sound(b, t, by);
    }
    if exists|from: Square| attacker(b, t, by, from) {
        let from = choose|from: Square| attacker(b, t, by, from);
        lemma_scan_complete(b, t, by, from);
    }
}

/// Whether the first piece met along `line` is `pa` or `pb`.
fn ray_hit(board: &Board<Piece>, line: &Vec<Square>, pa: Piece, pb: Piece) -> (hit: bool)
    requires
        pa != Piece::Empty,
        pb != Piece::Empty,
    ensures
        hit == ray_hits(board@, line@, pa, pb),
{
    let mut k: usize = 0;
    while k < line.len()
        invariant
            k <= line@.len(),
            pa != Piece::Empty,
            pb != Piece::Empty,
            forall|m: int| 0 <= m < k ==> piece_at(board@, #[trigger] line@[m]) == Piece::Empty,
        decreases line@.len() - k,
    {
        let p = *board.get(line[k]);
        if p != Piece::Empty {
            let hit = p == pa || p == pb;
            proof {
                if hit {
                    assert(hit_at(board@, line@, k as int, pa, pb));
                } else {
                    assert forall|j: int| !hit_at(board@, line@, j, pa, pb) by {
                        if j > k {
                            assert(piece_at(board@, line@[k as int]) != Piece::Empty);
                        }
                    }
                }
            }
            return hit;
        }
        k += 1;
    }
    false
}

/// Whether the first piece met along one of the rays `rs` is `pa` or `pb`.
fn any_hit(board: &Board<Piece>, rs: &PseudoMoves, pa: Piece, pb: Piece) -> (hit: bool)
    requires
        pa != Piece::Empty,
        pb != Piece::Empty,
    ensures
        hit == any_ray_hits(board@, lists(*rs), pa, pb),
{
    let mut j: usize = 0;
    while j < rs.len()
        invariant
            j <= rs@.len(),
            pa != Piece::Empty,
            pb != Piece::Empty,
            forall|i: int| 0 <= i < j ==> !ray_hits(board@, #[trigger] lists(*rs)[i], pa, pb),
        decreases rs@.len() - j,
    {
        if ray_hit(board, &rs[j], pa, pb) {
            assert(ray_hits(board@, lists(*rs)[j as int], pa, pb));
            return true;
        }
        j += 1;
    }
    false
}

/// Whether a pawn of `by` attacks `target` from the file `side` files away.
fn pawn_hit(board: &Board<Piece>, target: Square, by: Color, side: File) -> (hit: bool)
    requires
        side == 1 || side == -1,
    ensures
        hit == pawn_source(board@, target, by, side as int),
{
    let f: File = file(target) + side;
    let r: Rank = rank(target) - by.forward();
    if on_board(f, r) {
        *board.get(square_at(f, r)) == Piece::of(by, Kind::Pawn)
    } else {
        false
    }
}

/// Whether `target` is attacked by the side `by`.
pub fn is_attacked(board: &Board<Piece>, tables: &RayTables, target: Square, by: Color) -> (hit: bool)
    ensures
        hit == attacked(board@, target, by),
{
    proof {
        lemma_attacked_iff_scan(board@, target, by);
    }
    if board.get(target).has_color(by) {
        return false;
    }
    let knight = Piece::of(by, Kind::Knight);
    let king = Piece::of(by, Kind::King);
    let bishop = Piece::of(by, Kind::Bishop);
    let rook = Piece::of(by, Kind::Rook);
    let queen = Piece::of(by, Kind::Queen);
    any_hit(board, tables.knight(target), knight, knight)
        || any_hit(board, tables.king(target), king, king)
        || pawn_hit(board, target, by, -1)
        || pawn_hit(board, target, by, 1)
        || any_hit(board, tables.bishop(target), bishop, queen)
        || any_hit(board, tables.rook(target), rook, queen)
}

} // verus!
