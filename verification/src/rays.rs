use vstd::prelude::*;
use crate::board::{each_square, Board};
use crate::square::{file, inside, rank, square_at, File, Rank, Square};

verus! {

/// A step on the board: how far the file and the rank change.
pub type Direction = (File, Rank);

/// The steps of one movement pattern, in the order in which they are tried.
pub type Directions = Vec<Direction>;

/// The rays that leave one square, one list of squares for each direction that stays on the board.
pub type PseudoMoves = Vec<Vec<Square>>;

/// The squares reached from `(f, r)` by repeating the step `(df, dr)`: at most `limit` of them,
/// and none from the first that falls off the board.
pub open spec fn walk(f: int, r: int, df: int, dr: int, limit: nat) -> Seq<Square>
    decreases limit,
{
    if limit == 0 || !inside(f + df, r + dr) {
        Seq::empty()
    } else {
        seq![Square::at_coords(f + df, r + dr)] + walk(f + df, r + dr, df, dr, (limit - 1) as nat)
    }
}

/// How many steps a ray may take: one for a leaper, else seven, which no step that moves
/// can exceed on a board of eight files and ranks.
pub open spec fn reach(once: bool) -> nat {
    if once {
        1
    } else {
        7
    }
}

/// The ray that leaves `sq` in direction `dir`, cut to its first square if `once`.
pub open spec fn ray(once: bool, sq: Square, dir: Direction) -> Seq<Square> {
    walk(sq.f(), sq.r(), dir.0 as int, dir.1 as int, reach(once))
}

/// The non-empty rays that leave `sq`, in the order of `dirs`.
pub open spec fn rays(once: bool, sq: Square, dirs: Seq<Direction>) -> Seq<Seq<Square>>
    decreases dirs.len(),
{
    if dirs.len() == 0 {
        Seq::empty()
    } else {
        let before = rays(once, sq, dirs.drop_last());
        let r = ray(once, sq, dirs.last());
        if r.len() > 0 {
            before.push(r)
        } else {
            before
        }
    }
}

/// The lists of squares that a value of `PseudoMoves` holds.
pub open spec fn lists(v: PseudoMoves) -> Seq<Seq<Square>> {
    Seq::new(v@.len(), |i: int| v@[i]@)
}

/// The squares met when leaving `sq` in direction `dir` until the edge of the board,
/// or the first of them alone if `once`.
pub fn direction(once: bool, sq: Square, dir: Direction) -> (result: Vec<Square>)
    ensures
        result@ == ray(once, sq, dir),
{
    let df: i16 = dir.0 as i16;
    let dr: i16 = dir.1 as i16;
    let limit: usize = if once { 1 } else { 7 };
    let mut f: i16 = file(sq) as i16;
    let mut r: i16 = rank(sq) as i16;
    let mut result: Vec<Square> = Vec::new();
    while result.len() < limit
        invariant
            df == dir.0,
            dr == dir.1,
            limit == reach(once),
            0 <= f <= 7,
            0 <= r <= 7,
            result@.len() <= limit,
            ray(once, sq, dir) == result@ + walk(
                f as int,
                r as int,
                df as int,
                dr as int,
                (limit - result@.len()) as nat,
            ),
        decreases limit - result@.len(),
    {
        let nf: i16 = f + df;
        let nr: i16 = r + dr;
        if !(0 <= nf && nf <= 7 && 0 <= nr && nr <= 7) {
            assert(ray(once, sq, dir) =~= result@);
            return result;
        }
        let ghost before = result@;
        let ghost rest = walk(nf as int, nr as int, df as int, dr as int, (limit - before.len() - 1) as nat);
        let s = square_at(nf as File, nr as Rank);
        result.push(s);
        f = nf;
        r = nr;
        assert(before + (seq![s] + rest) =~= result@ + rest);
    }
    assert(ray(once, sq, dir) =~= result@);
    result
}

/// The rays that leave `sq` in the directions `dirs`, those that hold no square left out.
pub fn pseudo_moves_at(once: bool, dirs: &Directions, sq: Square) -> (result: PseudoMoves)
    ensures
        lists(result) == rays(once, sq, dirs@),
{
    let mut result: PseudoMoves = Vec::new();
    let mut i: usize = 0;
    assert(dirs@.take(0) =~= Seq::empty());
    assert(lists(result) =~= Seq::empty());
    while i < dirs.len()
        invariant
            i <= dirs@.len(),
            lists(result) == rays(once, sq, dirs@.take(i as int)),
        decreases dirs@.len() - i,
    {
        let moves = direction(once, sq, dirs[i]);
        let ghost before = lists(result);
        assert(dirs@.take(i + 1).drop_last() =~= dirs@.take(i as int));
        assert(dirs@.take(i + 1).last() == dirs@[i as int]);
        if moves.len() > 0 {
            result.push(moves);
            assert(lists(result) =~= before.push(moves@));
        }
        i += 1;
    }
    assert(dirs@.take(i as int) =~= dirs@);
    result
}

/// For every square, the rays that leave it in the directions `dirs`.
pub fn pseudo_moves(once: bool, dirs: &Directions) -> (table: Board<PseudoMoves>)
    ensures
        forall|sq: Square| lists(#[trigger] table.at(sq)) == rays(once, sq, dirs@),
{
    let at = |sq: Square| -> (r: PseudoMoves)
        ensures
            lists(r) == rays(once, sq, dirs@),
        { pseudo_moves_at(once, dirs, sq) };
    each_square(at)
}


/// The four diagonal steps.
pub open spec fn bishop_directions() -> Seq<Direction> {
    seq![(1i8, 1i8), (1i8, -1i8), (-1i8, 1i8), (-1i8, -1i8)]
}

/// The four steps along a rank or a file.
pub open spec fn rook_directions() -> Seq<Direction> {
    seq![(1i8, 0i8), (-1i8, 0i8), (0i8, 1i8), (0i8, -1i8)]
}

/// The diagonal steps followed by the straight ones.
pub open spec fn queen_directions() -> Seq<Direction> {
    bishop_directions() + rook_directions()
}

/// The eight leaps of a knight.
pub open spec fn knight_directions() -> Seq<Direction> {
    seq![
        (-2i8, -1i8),
        (-2i8, 1i8),
        (-1i8, -2i8),
        (-1i8, 2i8),
        (1i8, -2i8),
        (1i8, 2i8),
        (2i8, -1i8),
        (2i8, 1i8),
    ]
}

/// The diagonal steps, in the order in which a bishop's rays are listed.
pub fn bishop_dirs() -> (dirs: Directions)
    ensures
        dirs@ == bishop_directions(),
{
    let dirs: Directions = vec![(1, 1), (1, -1), (-1, 1), (-1, -1)];
    assert(dirs@ =~= bishop_directions());
    dirs
}

/// The straight steps, in the order in which a rook's rays are listed.
pub fn rook_dirs() -> (dirs: Directions)
    ensures
        dirs@ == rook_directions(),
{
    let dirs: Directions = vec![(1, 0), (-1, 0), (0, 1), (0, -1)];
    assert(dirs@ =~= rook_directions());
    dirs
}

/// The eight steps of a queen, and of a king: the diagonal ones, then the straight ones.
pub fn queen_dirs() -> (dirs: Directions)
    ensures
        dirs@ == queen_directions(),
{
    let dirs: Directions = vec![(1, 1), (1, -1), (-1, 1), (-1, -1), (1, 0), (-1, 0), (0, 1), (0, -1)];
    assert(dirs@ =~= queen_directions());
    dirs
}

/// The eight leaps of a knight, in the order in which they are listed.
pub fn knight_dirs() -> (dirs: Directions)
    ensures
        dirs@ == knight_directions(),
{
    let dirs: Directions = vec![(-2, -1), (-2, 1), (-1, -2), (-1, 2), (1, -2), (1, 2), (2, -1), (2, 1)];
    assert(dirs@ =~= knight_directions());
    dirs
}

/// The ray tables of the five movement patterns, built once and never changed.
pub struct RayTables {
    bishop: Board<PseudoMoves>,
    rook: Board<PseudoMoves>,
    queen: Board<PseudoMoves>,
    king: Board<PseudoMoves>,
    knight: Board<PseudoMoves>,
}

impl RayTables {
    #[verifier::type_invariant]
    spec fn well_formed(self) -> bool {
        &&& forall|sq: Square| lists(#[trigger] self.bishop.at(sq)) == rays(false, sq, bishop_directions())
        &&& forall|sq: Square| lists(#[trigger] self.rook.at(sq)) == rays(false, sq, rook_directions())
        &&& forall|sq: Square| lists(#[trigger] self.queen.at(sq)) == rays(false, sq, queen_directions())
        &&& forall|sq: Square| lists(#[trigger] self.king.at(sq)) == rays(true, sq, queen_directions())
        &&& forall|sq: Square| lists(#[trigger] self.knight.at(sq)) == rays(true, sq, knight_directions())
    }

    /// The diagonal rays that the tables hold for `sq`.
    pub closed spec fn bishop_rays(&self, sq: Square) -> Seq<Seq<Square>> {
        lists(self.bishop.at(sq))
    }

    /// The straight rays that the tables hold for `sq`.
    pub closed spec fn rook_rays(&self, sq: Square) -> Seq<Seq<Square>> {
        lists(self.rook.at(sq))
    }

    /// The diagonal and straight rays that the tables hold for `sq`.
    pub closed spec fn queen_rays(&self, sq: Square) -> Seq<Seq<Square>> {
        lists(self.queen.at(sq))
    }

    /// The king's steps that the tables hold for `sq`.
    pub closed spec fn king_rays(&self, sq: Square) -> Seq<Seq<Square>> {
        lists(self.king.at(sq))
    }

    /// The knight's leaps that the tables hold for `sq`.
    pub closed spec fn knight_rays(&self, sq: Square) -> Seq<Seq<Square>> {
        lists(self.knight.at(sq))
    }

    /// Builds the five tables: for every square the bishop's, rook's and queen's rays to
    /// the edge of the board, and the king's and the knight's rays of one step.
    pub fn new() -> (tables: RayTables)
        ensures
            forall|sq: Square| #[trigger]
                tables.bishop_rays(sq) == rays(false, sq, bishop_directions()),
            forall|sq: Square| #[trigger] tables.rook_rays(sq) == rays(false, sq, rook_directions()),
            forall|sq: Square| #[trigger]
                tables.queen_rays(sq) == rays(false, sq, queen_directions()),
            forall|sq: Square| #[trigger] tables.king_rays(sq) == rays(true, sq, queen_directions()),
            forall|sq: Square| #[trigger]
                tables.knight_rays(sq) == rays(true, sq, knight_directions()),
    {
        let b = bishop_dirs();
        let r = rook_dirs();
        let q = queen_dirs();
        let n = knight_dirs();
        RayTables {
            bishop: pseudo_moves(false, &b),
            rook: pseudo_moves(false, &r),
            queen: pseudo_moves(false, &q),
            king: pseudo_moves(true, &q),
            knight: pseudo_moves(true, &n),
        }
    }

    /// The diagonal rays that leave `sq`.
    pub fn bishop(&self, sq: Square) -> (m: &PseudoMoves)
        ensures
            lists(*m) == self.bishop_rays(sq),
            lists(*m) == rays(false, sq, bishop_directions()),
    {
        proof {
            use_type_invariant(self);
        }
        self.bishop.get(sq)
    }

    /// The straight rays that leave `sq`.
    pub fn rook(&self, sq: Square) -> (m: &PseudoMoves)
        ensures
            lists(*m) == self.rook_rays(sq),
            lists(*m) == rays(false, sq, rook_directions()),
    {
        proof {
            use_type_invariant(self);
        }
        self.rook.get(sq)
    }

    /// The diagonal and straight rays that leave `sq`.
    pub fn queen(&self, sq: Square) -> (m: &PseudoMoves)
        ensures
            lists(*m) == self.queen_rays(sq),
            lists(*m) == rays(false, sq, queen_directions()),
    {
        proof {
            use_type_invariant(self);
        }
        self.queen.get(sq)
    }

    /// The squares next to `sq`, each as a ray of one square.
    pub fn king(&self, sq: Square) -> (m: &PseudoMoves)
        ensures
            lists(*m) == self.king_rays(sq),
            lists(*m) == rays(true, sq, queen_directions()),
    {
        proof {
            use_type_invariant(self);
        }
        self.king.get(sq)
    }

    /// The squares a knight's leap away from `sq`, each as a ray of one square.
    pub fn knight(&self, sq: Square) -> (m: &PseudoMoves)
        ensures
            lists(*m) == self.knight_rays(sq),
            lists(*m) == rays(true, sq, knight_directions()),
    {
        proof {
            use_type_invariant(self);
        }
        self.knight.get(sq)
    }
}

} // verus!
