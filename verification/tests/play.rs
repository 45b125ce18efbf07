use chess_kernel::movegen::in_check;
use chess_kernel::{
    empty_board, Board, CastlingRights, Color, Error, Move, MoveInfo, Piece, RayTables, Square, State,
};

fn find(state: &State, from: Square, to: Square) -> Move {
    let moves: Vec<Move> = state
        .legal_moves()
        .into_iter()
        .filter(|m| m.from == from && m.to == to)
        .collect();
    assert_eq!(moves.len(), 1, "expected one legal move {:?}->{:?}", from, to);
    moves[0]
}

fn play(state: &mut State, from: Square, to: Square) -> Move {
    let m = find(state, from, to);
    assert_eq!(state.apply(m), Ok(()));
    m
}

fn snapshot(state: &State) -> (Vec<Piece>, CastlingRights, Vec<Move>) {
    let board: Vec<Piece> = (0..64usize)
        .map(|i| state.piece_at(Square::from_index(i).unwrap()))
        .collect();
    (board, state.castling_rights(), state.moves().clone())
}

fn perft(state: &mut State, depth: u32) -> u64 {
    if depth == 0 {
        return 1;
    }
    let moves = state.legal_moves();
    if depth == 1 {
        return moves.len() as u64;
    }
    let mut nodes = 0;
    for m in moves {
        assert_eq!(state.apply(m), Ok(()));
        nodes += perft(state, depth - 1);
        assert_eq!(state.undo(), Ok(()));
    }
    nodes
}

fn board_with(pieces: &[(Square, Piece)]) -> Board<Piece> {
    let mut board = empty_board(Piece::Empty);
    for (sq, p) in pieces {
        board.set(*sq, *p);
    }
    board
}

fn waiting_move(piece: Piece, from: Square, to: Square) -> Move {
    Move::new(piece, from, to, Piece::Empty, None, false, CastlingRights::none())
}

#[test]
fn initial_position_has_twenty_legal_moves() {
    let state = State::new();
    let moves = state.legal_moves();
    assert_eq!(moves.len(), 20);
    let pawns = moves.iter().filter(|m| m.piece == Piece::WP).count();
    let knights = moves.iter().filter(|m| m.piece == Piece::WN).count();
    assert_eq!(pawns, 16);
    assert_eq!(knights, 4);
    assert_eq!(state.pseudo_legal_moves(), moves);
}

#[test]
fn initial_position_offers_knight_b1_to_c3() {
    let state = State::new();
    let m = find(&state, Square::B1, Square::C3);
    assert_eq!(m.piece, Piece::WN);
    assert_eq!(m.captured, Piece::Empty);
    assert_eq!(m.info, None);
    assert!(!m.check);
    let expected = Move::new(
        Piece::WN,
        Square::B1,
        Square::C3,
        Piece::Empty,
        None,
        false,
        CastlingRights::all(),
    );
    assert_eq!(m, expected);
    assert!(state.legal_moves().contains(&expected));
}

#[test]
fn initial_state_queries() {
    let state = State::new();
    assert_eq!(state.side_to_move(), Color::White);
    assert_eq!(state.history_len(), 0);
    assert_eq!(state.last_move(), None);
    assert_eq!(state.castling_rights(), CastlingRights::all());
    assert!(state.white_can_castle_kside());
    assert!(state.white_can_castle_qside());
    assert!(state.black_can_castle_kside());
    assert!(state.black_can_castle_qside());
    assert_eq!(state.piece_at(Square::E1), Piece::WK);
    assert_eq!(state.piece_at(Square::D1), Piece::WQ);
    assert_eq!(state.piece_at(Square::E8), Piece::BK);
    assert_eq!(state.piece_at(Square::D8), Piece::BQ);
    assert_eq!(state.piece_at(Square::A1), Piece::WR);
    assert_eq!(state.piece_at(Square::H8), Piece::BR);
    assert_eq!(state.piece_at(Square::C2), Piece::WP);
    assert_eq!(state.piece_at(Square::F7), Piece::BP);
    assert_eq!(state.piece_at(Square::E4), Piece::Empty);
    assert!(!state.in_check());
    assert!(!state.is_checkmate());
    assert!(!state.is_stalemate());
}

#[test]
fn perft_depth_one_to_three() {
    let mut state = State::new();
    assert_eq!(perft(&mut state, 1), 20);
    assert_eq!(perft(&mut state, 2), 400);
    assert_eq!(perft(&mut state, 3), 8_902);
}

#[test]
fn perft_depth_four() {
    let mut state = State::new();
    assert_eq!(perft(&mut state, 4), 197_281);
}

#[test]
fn fools_mate_is_checkmate() {
    let mut state = State::new();
    play(&mut state, Square::F2, Square::F3);
    play(&mut state, Square::E7, Square::E5);
    play(&mut state, Square::G2, Square::G4);
    let mate = play(&mut state, Square::D8, Square::H4);
    assert!(mate.check);
    assert_eq!(state.legal_moves().len(), 0);
    assert!(state.in_check());
    assert!(state.is_checkmate());
    assert!(!state.is_stalemate());
    let tables = RayTables::new();
    assert!(chess_kernel::attack::is_attacked(
        state.board(),
        &tables,
        Square::E1,
        Color::Black
    ));
}

#[test]
fn castling_moves_king_and_rook_and_clears_rights() {
    let mut state = State::new();
    play(&mut state, Square::E2, Square::E4);
    play(&mut state, Square::E7, Square::E5);
    play(&mut state, Square::G1, Square::F3);
    play(&mut state, Square::B8, Square::C6);
    play(&mut state, Square::F1, Square::C4);
    play(&mut state, Square::F8, Square::C5);
    let before = snapshot(&state);
    let m = find(&state, Square::E1, Square::G1);
    assert_eq!(m.piece, Piece::WK);
    assert_eq!(m.info, Some(MoveInfo::Castled));
    assert_eq!(m.captured, Piece::Empty);
    assert_eq!(state.apply(m), Ok(()));
    assert_eq!(state.piece_at(Square::G1), Piece::WK);
    assert_eq!(state.piece_at(Square::F1), Piece::WR);
    assert_eq!(state.piece_at(Square::E1), Piece::Empty);
    assert_eq!(state.piece_at(Square::H1), Piece::Empty);
    assert!(!state.white_can_castle_kside());
    assert!(!state.white_can_castle_qside());
    assert!(state.black_can_castle_kside());
    assert!(state.black_can_castle_qside());
    assert_eq!(state.undo(), Ok(()));
    assert_eq!(snapshot(&state), before);
}

#[test]
fn castling_on_the_queen_side() {
    let board = board_with(&[
        (Square::E1, Piece::WK),
        (Square::A1, Piece::WR),
        (Square::H1, Piece::WR),
        (Square::E8, Piece::BK),
    ]);
    let mut state = State::from_parts(board, CastlingRights::all(), Vec::new());
    let m = find(&state, Square::E1, Square::C1);
    assert_eq!(m.info, Some(MoveInfo::Castled));
    assert_eq!(state.apply(m), Ok(()));
    assert_eq!(state.piece_at(Square::C1), Piece::WK);
    assert_eq!(state.piece_at(Square::D1), Piece::WR);
    assert_eq!(state.piece_at(Square::A1), Piece::Empty);
    assert_eq!(state.piece_at(Square::H1), Piece::WR);
    assert!(m.check == false);
}

#[test]
fn no_castling_through_an_attacked_square_or_out_of_check() {
    let through = board_with(&[
        (Square::E1, Piece::WK),
        (Square::H1, Piece::WR),
        (Square::F8, Piece::BR),
        (Square::A8, Piece::BK),
    ]);
    let state = State::from_parts(through, CastlingRights::all(), Vec::new());
    assert!(state
        .legal_moves()
        .iter()
        .all(|m| m.info != Some(MoveInfo::Castled)));
    let out_of = board_with(&[
        (Square::E1, Piece::WK),
        (Square::H1, Piece::WR),
        (Square::E8, Piece::BR),
        (Square::A8, Piece::BK),
    ]);
    let state = State::from_parts(out_of, CastlingRights::all(), Vec::new());
    assert!(state.in_check());
    assert!(state
        .legal_moves()
        .iter()
        .all(|m| m.info != Some(MoveInfo::Castled)));
    let free = board_with(&[
        (Square::E1, Piece::WK),
        (Square::H1, Piece::WR),
        (Square::A7, Piece::BR),
        (Square::A8, Piece::BK),
    ]);
    let state = State::from_parts(free, CastlingRights::all(), Vec::new());
    assert_eq!(
        state
            .legal_moves()
            .iter()
            .filter(|m| m.info == Some(MoveInfo::Castled))
            .count(),
        1
    );
    let state = State::from_parts(free, CastlingRights::none(), Vec::new());
    assert!(state
        .legal_moves()
        .iter()
        .all(|m| m.info != Some(MoveInfo::Castled)));
}

#[test]
fn rook_moves_and_rook_captures_end_castling_rights() {
    let board = board_with(&[
        (Square::E1, Piece::WK),
        (Square::A1, Piece::WR),
        (Square::H1, Piece::WR),
        (Square::E8, Piece::BK),
        (Square::A8, Piece::BR),
        (Square::H8, Piece::BR),
    ]);
    let mut state = State::from_parts(board, CastlingRights::all(), Vec::new());
    play(&mut state, Square::H1, Square::H8);
    let rights = state.castling_rights();
    assert!(!rights.white_kside);
    assert!(rights.white_qside);
    assert!(!rights.black_kside);
    assert!(rights.black_qside);
    play(&mut state, Square::E8, Square::E7);
    let rights = state.castling_rights();
    assert!(!rights.black_kside);
    assert!(!rights.black_qside);
    assert!(rights.white_qside);
    assert_eq!(state.undo(), Ok(()));
    assert_eq!(state.undo(), Ok(()));
    assert_eq!(state.castling_rights(), CastlingRights::all());
    assert_eq!(state.piece_at(Square::H8), Piece::BR);
    assert_eq!(state.piece_at(Square::H1), Piece::WR);
}

#[test]
fn en_passant_takes_the_pawn_that_passed() {
    let mut state = State::new();
    play(&mut state, Square::E2, Square::E4);
    play(&mut state, Square::A7, Square::A6);
    play(&mut state, Square::E4, Square::E5);
    play(&mut state, Square::D7, Square::D5);
    let before = snapshot(&state);
    let m = find(&state, Square::E5, Square::D6);
    assert_eq!(m.piece, Piece::WP);
    assert_eq!(m.info, Some(MoveInfo::EnPassant));
    assert_eq!(m.captured, Piece::BP);
    assert_eq!(state.apply(m), Ok(()));
    assert_eq!(state.piece_at(Square::D5), Piece::Empty);
    assert_eq!(state.piece_at(Square::D6), Piece::WP);
    assert_eq!(state.piece_at(Square::E5), Piece::Empty);
    assert_eq!(state.undo(), Ok(()));
    assert_eq!(snapshot(&state), before);
    assert_eq!(state.piece_at(Square::D5), Piece::BP);
}

#[test]
fn en_passant_only_right_after_the_double_push() {
    let mut state = State::new();
    play(&mut state, Square::E2, Square::E4);
    play(&mut state, Square::D7, Square::D5);
    play(&mut state, Square::E4, Square::E5);
    play(&mut state, Square::F7, Square::F5);
    assert_eq!(find(&state, Square::E5, Square::F6).info, Some(MoveInfo::EnPassant));
    assert!(state
        .legal_moves()
        .iter()
        .all(|m| !(m.from == Square::E5 && m.to == Square::D6)));
    play(&mut state, Square::A2, Square::A3);
    play(&mut state, Square::A7, Square::A6);
    assert!(state
        .legal_moves()
        .iter()
        .all(|m| m.info != Some(MoveInfo::EnPassant)));
}

#[test]
fn promotion_offers_four_pieces() {
    let mut state = State::new();
    play(&mut state, Square::A2, Square::A4);
    play(&mut state, Square::B7, Square::B5);
    play(&mut state, Square::A4, Square::B5);
    play(&mut state, Square::A7, Square::A6);
    play(&mut state, Square::B5, Square::A6);
    play(&mut state, Square::B8, Square::C6);
    play(&mut state, Square::A6, Square::A7);
    play(&mut state, Square::A8, Square::B8);
    assert_eq!(state.piece_at(Square::A7), Piece::WP);
    assert_eq!(state.piece_at(Square::A8), Piece::Empty);
    let promotions: Vec<Move> = state
        .legal_moves()
        .into_iter()
        .filter(|m| m.from == Square::A7 && m.to == Square::A8)
        .collect();
    let infos: Vec<Option<MoveInfo>> = promotions.iter().map(|m| m.info).collect();
    assert_eq!(
        infos,
        vec![
            Some(MoveInfo::Promoted { piece: Piece::WN }),
            Some(MoveInfo::Promoted { piece: Piece::WB }),
            Some(MoveInfo::Promoted { piece: Piece::WR }),
            Some(MoveInfo::Promoted { piece: Piece::WQ }),
        ]
    );
    let captures = state
        .legal_moves()
        .into_iter()
        .filter(|m| m.from == Square::A7 && m.to == Square::B8)
        .count();
    assert_eq!(captures, 4);
    let before = snapshot(&state);
    let queen = promotions[3];
    assert_eq!(queen.piece, Piece::WP);
    assert_eq!(state.apply(queen), Ok(()));
    assert_eq!(state.piece_at(Square::A8), Piece::WQ);
    assert_eq!(state.piece_at(Square::A7), Piece::Empty);
    assert_eq!(state.undo(), Ok(()));
    assert_eq!(snapshot(&state), before);
}

#[test]
fn promotion_on_a_bare_board() {
    let board = board_with(&[
        (Square::A7, Piece::WP),
        (Square::E1, Piece::WK),
        (Square::H5, Piece::BK),
    ]);
    let state = State::from_parts(board, CastlingRights::none(), Vec::new());
    let promotions: Vec<Move> = state
        .legal_moves()
        .into_iter()
        .filter(|m| m.from == Square::A7)
        .collect();
    assert_eq!(promotions.len(), 4);
    assert!(promotions.iter().all(|m| m.to == Square::A8));
    assert!(!promotions[0].check);
    assert!(!promotions[1].check);
    assert!(!promotions[2].check);
    assert!(!promotions[3].check);
}

#[test]
fn stalemate_has_no_moves_and_no_check() {
    let board = board_with(&[
        (Square::A8, Piece::BK),
        (Square::C7, Piece::WK),
        (Square::B6, Piece::WQ),
    ]);
    let last = waiting_move(Piece::WQ, Square::B5, Square::B6);
    let state = State::from_parts(board, CastlingRights::none(), vec![last]);
    assert_eq!(state.side_to_move(), Color::Black);
    assert_eq!(state.legal_moves().len(), 0);
    assert!(!state.in_check());
    assert!(state.is_stalemate());
    assert!(!state.is_checkmate());
    let tables = RayTables::new();
    assert!(!in_check(state.board(), &tables, Color::Black));
}

#[test]
fn apply_rejects_a_move_that_is_not_legal() {
    let mut state = State::new();
    let before = snapshot(&state);
    let jump = Move::new(
        Piece::WP,
        Square::E2,
        Square::E5,
        Piece::Empty,
        None,
        false,
        CastlingRights::all(),
    );
    assert_eq!(state.apply(jump), Err(Error::IllegalMove));
    assert_eq!(snapshot(&state), before);
    let wrong_flag = Move::new(
        Piece::WN,
        Square::B1,
        Square::C3,
        Piece::Empty,
        None,
        true,
        CastlingRights::all(),
    );
    assert_eq!(state.apply(wrong_flag), Err(Error::IllegalMove));
    let black = Move::new(
        Piece::BP,
        Square::E7,
        Square::E5,
        Piece::Empty,
        None,
        false,
        CastlingRights::all(),
    );
    assert_eq!(state.apply(black), Err(Error::IllegalMove));
    assert_eq!(snapshot(&state), before);
}

#[test]
fn undo_rejects_an_empty_history() {
    let mut state = State::new();
    let before = snapshot(&state);
    assert_eq!(state.undo(), Err(Error::CorruptState));
    assert_eq!(snapshot(&state), before);
}

#[test]
fn undo_rejects_a_history_that_does_not_match_the_board() {
    let board = board_with(&[(Square::E1, Piece::WK), (Square::E8, Piece::BK)]);
    let last = waiting_move(Piece::WQ, Square::B5, Square::B6);
    let mut state = State::from_parts(board, CastlingRights::none(), vec![last]);
    let before = snapshot(&state);
    assert_eq!(state.undo(), Err(Error::CorruptState));
    assert_eq!(snapshot(&state), before);
}

#[test]
fn apply_then_undo_restores_the_state() {
    let mut state = State::new();
    let line = [
        (Square::E2, Square::E4),
        (Square::D7, Square::D5),
        (Square::E4, Square::D5),
        (Square::D8, Square::D5),
        (Square::B1, Square::C3),
        (Square::D5, Square::E5),
        (Square::F1, Square::E2),
        (Square::C8, Square::G4),
    ];
    for (from, to) in line {
        let before = snapshot(&state);
        for m in state.legal_moves() {
            assert_eq!(state.apply(m), Ok(()));
            assert_eq!(state.last_move(), Some(m));
            assert_eq!(state.history_len(), before.2.len() + 1);
            assert_eq!(state.undo(), Ok(()));
            assert_eq!(snapshot(&state), before);
        }
        play(&mut state, from, to);
    }
}

#[test]
fn side_to_move_alternates() {
    let mut state = State::new();
    assert_eq!(state.side_to_move(), Color::White);
    play(&mut state, Square::E2, Square::E4);
    assert_eq!(state.side_to_move(), Color::Black);
    assert_eq!(state.history_len(), 1);
    play(&mut state, Square::E7, Square::E5);
    assert_eq!(state.side_to_move(), Color::White);
    assert_eq!(state.history_len(), 2);
    assert_eq!(state.last_move().map(|m| m.to), Some(Square::E5));
}

#[test]
fn no_legal_move_leaves_the_movers_king_attacked() {
    let tables = RayTables::new();
    let mut state = State::new();
    let line = [
        (Square::E2, Square::E4),
        (Square::E7, Square::E5),
        (Square::D1, Square::H5),
        (Square::B8, Square::C6),
        (Square::F1, Square::C4),
        (Square::G8, Square::F6),
    ];
    for (from, to) in line {
        let mover = state.side_to_move();
        for m in state.legal_moves() {
            assert_eq!(state.apply(m), Ok(()));
            assert!(!in_check(state.board(), &tables, mover));
            assert_eq!(m.check, in_check(state.board(), &tables, mover.opponent()));
            assert_eq!(m.check, state.in_check());
            assert_eq!(state.undo(), Ok(()));
        }
        play(&mut state, from, to);
    }
    let mate = find(&state, Square::H5, Square::F7);
    assert!(mate.check);
    assert_eq!(mate.captured, Piece::BP);
    assert_eq!(state.apply(mate), Ok(()));
    assert!(state.is_checkmate());
}

#[test]
fn a_pinned_piece_may_not_leave_the_line() {
    let board = board_with(&[
        (Square::E1, Piece::WK),
        (Square::E2, Piece::WN),
        (Square::E8, Piece::BR),
        (Square::A8, Piece::BK),
    ]);
    let state = State::from_parts(board, CastlingRights::none(), Vec::new());
    assert!(state.legal_moves().iter().all(|m| m.piece == Piece::WK));
    assert_eq!(
        state
            .pseudo_legal_moves()
            .iter()
            .filter(|m| m.piece == Piece::WN)
            .count(),
        6
    );
}

#[test]
fn legal_moves_come_in_the_order_of_the_squares_they_leave() {
    let state = State::new();
    let moves = state.legal_moves();
    let from: Vec<usize> = moves.iter().map(|m| m.from.index()).collect();
    let mut sorted = from.clone();
    sorted.sort();
    assert_eq!(from, sorted);
    assert_eq!(moves[0].from, Square::B1);
    assert_eq!(state.legal_moves(), moves);
}
