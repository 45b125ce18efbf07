use vstd::prelude::*;
use crate::attack::piece_at;
use crate::board::{lemma_board_len, Board};
use crate::error::Error;
use crate::movegen::{candidate_moves, in_check, legal_among, make, unmake};
use crate::moves::{CastlingRights, Move, MoveInfo};
use crate::piece::{Color, Kind, Piece};
use crate::rays::RayTables;
use crate::rules::{ends_right, king_in_check, undoable, Position};
use crate::square::{file, rank, square_at, Square};

verus! {

/// The kind of piece that starts on file `f` of a side's home rank.
pub open spec fn home_kind(f: int) -> Kind {
    if f == 0 || f == 7 {
        Kind::Rook
    } else if f == 1 || f == 6 {
        Kind::Knight
    } else if f == 2 || f == 5 {
        Kind::Bishop
    } else if f == 3 {
        Kind::Queen
    } else {
        Kind::King
    }
}

/// The piece that starts a game on `sq`.
pub open spec fn starting_piece(sq: Square) -> Piece {
    if sq.r() == 0 {
        Piece::of_spec(Color::White, home_kind(sq.f()))
    } else if sq.r() == 1 {
        Piece::WP
    } else if sq.r() == 6 {
        Piece::BP
    } else if sq.r() == 7 {
        Piece::of_spec(Color::Black, home_kind(sq.f()))
    } else {
        Piece::Empty
    }
}

/// The placement at the start of a game.
pub open spec fn starting_placement() -> Seq<Piece> {
    Seq::new(64, |i: int| starting_piece(Square::at(i)))
}

/// The position at the start of a game: every castling available, no move played.
pub open spec fn starting_position() -> Position {
    Position {
        board: starting_placement(),
        rights: CastlingRights {
            white_kside: true,
            white_qside: true,
            black_kside: true,
            black_qside: true,
        },
        history: Seq::empty(),
    }
}

/// The board at the start of a game.
pub fn starting_board() -> (b: Board<Piece>)
    ensures
        b@ == starting_placement(),
{
    let b = Board::new(
        [
            Piece::WR, Piece::WN, Piece::WB, Piece::WQ, Piece::WK, Piece::WB, Piece::WN, Piece::WR,
            Piece::WP, Piece::WP, Piece::WP, Piece::WP, Piece::WP, Piece::WP, Piece::WP, Piece::WP,
            Piece::Empty, Piece::Empty, Piece::Empty, Piece::Empty, Piece::Empty, Piece::Empty, Piece::Empty, Piece::Empty,
            Piece::Empty, Piece::Empty, Piece::Empty, Piece::Empty, Piece::Empty, Piece::Empty, Piece::Empty, Piece::Empty,
            Piece::Empty, Piece::Empty, Piece::Empty, Piece::Empty, Piece::Empty, Piece::Empty, Piece::Empty, Piece::Empty,
            Piece::Empty, Piece::Empty, Piece::Empty, Piece::Empty, Piece::Empty, Piece::Empty, Piece::Empty, Piece::Empty,
            Piece::BP, Piece::BP, Piece::BP, Piece::BP, Piece::BP, Piece::BP, Piece::BP, Piece::BP,
            Piece::BR, Piece::BN, Piece::BB, Piece::BQ, Piece::BK, Piece::BB, Piece::BN, Piece::BR,
        ],
    );
    assert(b@ =~= starting_placement());
    b
}

/// A game in progress: the board, the castlings still available, and the moves played.
pub struct State {
    board: Board<Piece>,
    white_can_castle_kside: bool,
    white_can_castle_qside: bool,
    black_can_castle_kside: bool,
    black_can_castle_qside: bool,
    moves: Vec<Move>,
    tables: RayTables,
}

impl View for State {
    type V = Position;

    closed spec fn view(&self) -> Position {
        Position {
            board: self.board@,
            rights: CastlingRights {
                white_kside: self.white_can_castle_kside,
                white_qside: self.white_can_castle_qside,
                black_kside: self.black_can_castle_kside,
                black_qside: self.black_can_castle_qside,
            },
            history: self.moves@,
        }
    }
}

/// Whether the move `m` ends the castling right of `c` on the given side.
fn ends(m: Move, c: Color, kside: bool) -> (b: bool)
    ensures
        b == ends_right(m, c, kside),
{
    let home = square_at(if kside { 7 } else { 0 }, c.home_rank());
    let rook = Piece::of(c, Kind::Rook);
    m.piece == Piece::of(c, Kind::King) || (m.piece == rook && m.from == home) || (m.captured == rook
        && m.to == home)
}

/// Whether `board` can be the result of `m`.
fn can_unmake(board: &Board<Piece>, m: Move) -> (b: bool)
    ensures
        b == undoable(board@, m),
{
    let landing = match m.info {
        Some(MoveInfo::Promoted { piece }) => piece,
        _ => m.piece,
    };
    if m.from == m.to || *board.get(m.to) != landing || *board.get(m.from) != Piece::Empty {
        return false;
    }
    match m.info {
        Some(MoveInfo::EnPassant) => *board.get(square_at(file(m.to), rank(m.from))) == Piece::Empty,
        Some(MoveInfo::Castled) => {
            let kside = file(m.to) > file(m.from);
            let rook = match m.piece.color() {
                Some(c) => Piece::of(c, Kind::Rook),
                None => Piece::Empty,
            };
            *board.get(square_at(if kside { 5 } else { 3 }, rank(m.from))) == rook && *board.get(
                square_at(if kside { 7 } else { 0 }, rank(m.from)),
            ) == Piece::Empty
        },
        _ => true,
    }
}

/// Whether `moves` holds `m`.
fn holds(moves: &Vec<Move>, m: Move) -> (found: bool)
    ensures
        found == moves@.contains(m),
{
    let mut i: usize = 0;
    while i < moves.len()
        invariant
            i <= moves@.len(),
            forall|j: int| 0 <= j < i ==> moves@[j] != m,
        decreases moves@.len() - i,
    {
        if moves[i] == m {
            return true;
        }
        i += 1;
    }
    false
}

impl State {
    /// The state at the start of a game.
    pub fn new() -> (state: State)
        ensures
            state@ == starting_position(),
    {
        State {
            board: starting_board(),
            white_can_castle_kside: true,
            white_can_castle_qside: true,
            black_can_castle_kside: true,
            black_can_castle_qside: true,
            moves: Vec::new(),
            tables: RayTables::new(),
        }
    }

    /// The state with the given board, castling rights and moves played. The side to move is
    /// white if the number of moves is even.
    pub fn from_parts(board: Board<Piece>, rights: CastlingRights, moves: Vec<Move>) -> (state: State)
        ensures
            state@ == (Position { board: board@, rights, history: moves@ }),
    {
        State {
            board,
            white_can_castle_kside: rights.white_kside,
            white_can_castle_qside: rights.white_qside,
            black_can_castle_kside: rights.black_kside,
            black_can_castle_qside: rights.black_qside,
            moves,
            tables: RayTables::new(),
        }
    }

    /// A state holds a piece, or `Empty`, for each of the 64 squares.
    pub proof fn lemma_board_size(&self)
        ensures
            self@.board.len() == 64,
    {
        lemma_board_len(self.board);
    }

    /// The board.
    pub fn board(&self) -> (b: &Board<Piece>)
        ensures
            b@ == self@.board,
    {
        &self.board
    }

    /// The piece on `sq`, `Empty` if none.
    pub fn piece_at(&self, sq: Square) -> (p: Piece)
        ensures
            p == piece_at(self@.board, sq),
    {
        *self.board.get(sq)
    }

    /// The castlings still available.
    pub fn castling_rights(&self) -> (rights: CastlingRights)
        ensures
            rights == self@.rights,
    {
        CastlingRights {
            white_kside: self.white_can_castle_kside,
            white_qside: self.white_can_castle_qside,
            black_kside: self.black_can_castle_kside,
            black_qside: self.black_can_castle_qside,
        }
    }

    /// Whether white may still castle on the king's side.
    pub fn white_can_castle_kside(&self) -> (b: bool)
        ensures
            b == self@.rights.white_kside,
    {
        self.white_can_castle_kside
    }

    /// Whether white may still castle on the queen's side.
    pub fn white_can_castle_qside(&self) -> (b: bool)
        ensures
            b == self@.rights.white_qside,
    {
        self.white_can_castle_qside
    }

    /// Whether black may still castle on the king's side.
    pub fn black_can_castle_kside(&self) -> (b: bool)
        ensures
            b == self@.rights.black_kside,
    {
        self.black_can_castle_kside
    }

    /// Whether black may still castle on the queen's side.
    pub fn black_can_castle_qside(&self) -> (b: bool)
        ensures
            b == self@.rights.black_qside,
    {
        self.black_can_castle_qside
    }

    /// The moves played so far, oldest first.
    pub fn moves(&self) -> (moves: &Vec<Move>)
        ensures
            moves@ == self@.history,
    {
        &self.moves
    }

    /// The number of moves played so far.
    pub fn history_len(&self) -> (n: usize)
        ensures
            n == self@.history.len(),
    {
        self.moves.len()
    }

    /// The move played last, if any.
    pub fn last_move(&self) -> (last: Option<Move>)
        ensures
            last == self@.last(),
    {
        let n = self.moves.len();
        if n == 0 {
            None
        } else {
            Some(self.moves[n - 1])
        }
    }

    /// The side to move: white after an even number of moves.
    pub fn side_to_move(&self) -> (c: Color)
        ensures
            c == self@.side(),
    {
        if self.moves.len() % 2 == 0 {
            Color::White
        } else {
            Color::Black
        }
    }

    /// Whether the king of the side to move is attacked.
    pub fn in_check(&self) -> (check: bool)
        ensures
            check == king_in_check(self@.board, self@.side()),
    {
        in_check(&self.board, &self.tables, self.side_to_move())
    }

    /// The moves of the side to move by the way pieces move, whether or not they leave its
    /// king attacked.
    pub fn pseudo_legal_moves(&self) -> (moves: Vec<Move>)
        ensures
            moves@ == self@.pseudo_legal_moves(),
    {
        candidate_moves(
            &self.board,
            &self.tables,
            self.castling_rights(),
            self.last_move(),
            self.side_to_move(),
        )
    }

    /// The legal moves of the side to move, in the order of the squares they leave. Empty when
    /// the side to move is checkmated or stalemated.
    pub fn legal_moves(&self) -> (moves: Vec<Move>)
        ensures
            moves@ == self@.legal_moves(),
    {
        let candidates = self.pseudo_legal_moves();
        legal_among(&self.board, &self.tables, self.side_to_move(), &candidates)
    }

    /// Whether the side to move has no legal move and its king is attacked.
    pub fn is_checkmate(&self) -> (mate: bool)
        ensures
            mate == (self@.legal_moves().len() == 0 && king_in_check(self@.board, self@.side())),
    {
        self.legal_moves().len() == 0 && self.in_check()
    }

    /// Whether the side to move has no legal move and its king is not attacked.
    pub fn is_stalemate(&self) -> (stale: bool)
        ensures
            stale == (self@.legal_moves().len() == 0 && !king_in_check(self@.board, self@.side())),
    {
        self.legal_moves().len() == 0 && !self.in_check()
    }

    /// Plays `m`, which must be one of the legal moves: updates the board and the castling
    /// rights and appends `m` to the moves played.
    pub fn play(&mut self, m: Move)
        requires
            old(self)@.legal_moves().contains(m),
        ensures
            final(self)@ == old(self)@.apply(m),
    {
        make(&mut self.board, m);
        if ends(m, Color::White, true) {
            self.white_can_castle_kside = false;
        }
        if ends(m, Color::White, false) {
            self.white_can_castle_qside = false;
        }
        if ends(m, Color::Black, true) {
            self.black_can_castle_kside = false;
        }
        if ends(m, Color::Black, false) {
            self.black_can_castle_qside = false;
        }
        self.moves.push(m);
    }

    /// Plays `m` if it is one of the legal moves, and leaves the state as it is otherwise.
    pub fn apply(&mut self, m: Move) -> (r: Result<(), Error>)
        ensures
            old(self)@.legal_moves().contains(m) ==> r is Ok && final(self)@ == old(self)@.apply(m),
            !old(self)@.legal_moves().contains(m) ==> r == Err::<(), Error>(Error::IllegalMove)
                && final(self)@ == old(self)@,
    {
        let legal = self.legal_moves();
        if holds(&legal, m) {
            self.play(m);
            Ok(())
        } else {
            Err(Error::IllegalMove)
        }
    }

    /// Takes the last move back: restores the board and the castling rights and removes the
    /// move from the moves played. Leaves the state as it is if no move was played or the
    /// board cannot be the result of the last move.
    pub fn undo(&mut self) -> (r: Result<(), Error>)
        ensures
            old(self)@.can_undo() ==> r is Ok && final(self)@ == old(self)@.undo(),
            !old(self)@.can_undo() ==> r == Err::<(), Error>(Error::CorruptState) && final(self)@
                == old(self)@,
    {
        let n = self.moves.len();
        if n == 0 {
            return Err(Error::CorruptState);
        }
        let m = self.moves[n - 1];
        if !can_unmake(&self.board, m) {
            return Err(Error::CorruptState);
        }
        self.moves.pop();
        unmake(&mut self.board, m);
        self.white_can_castle_kside = m.rights.white_kside;
        self.white_can_castle_qside = m.rights.white_qside;
        self.black_can_castle_kside = m.rights.black_kside;
        self.black_can_castle_qside = m.rights.black_qside;
        Ok(())
    }
}

} // verus!
