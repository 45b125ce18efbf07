use chess_kernel::attack::is_attacked;
use chess_kernel::rays::{bishop_dirs, knight_dirs, queen_dirs, rook_dirs};
use chess_kernel::{
    direction, each_square, empty_board, pseudo_moves, pseudo_moves_at, starting_board, Board, Color,
    Kind, Piece, RayTables, Square,
};

fn board_with(pieces: &[(Square, Piece)]) -> Board<Piece> {
    let mut board = empty_board(Piece::Empty);
    for (sq, p) in pieces {
        board.set(*sq, *p);
    }
    board
}

#[test]
fn ray_runs_to_the_edge_of_the_board() {
    assert_eq!(
        direction(false, Square::A1, (1, 1)),
        vec![
            Square::B2,
            Square::C3,
            Square::D4,
            Square::E5,
            Square::F6,
            Square::G7,
            Square::H8
        ]
    );
    assert_eq!(
        direction(false, Square::E4, (0, -1)),
        vec![Square::E3, Square::E2, Square::E1]
    );
    assert_eq!(
        direction(false, Square::E4, (-1, 1)),
        vec![Square::D5, Square::C6, Square::B7, Square::A8]
    );
    assert_eq!(direction(false, Square::H8, (1, 0)), Vec::<Square>::new());
    assert_eq!(direction(false, Square::A1, (-1, -1)), Vec::<Square>::new());
}

#[test]
fn step_is_a_ray_cut_to_one_square() {
    assert_eq!(direction(true, Square::E4, (1, 2)), vec![Square::F6]);
    assert_eq!(direction(true, Square::E4, (1, 0)), vec![Square::F4]);
    assert_eq!(direction(true, Square::A1, (1, 1)), vec![Square::B2]);
    assert_eq!(direction(true, Square::G1, (2, 1)), Vec::<Square>::new());
    assert_eq!(direction(true, Square::A1, (-2, -1)), Vec::<Square>::new());
}

#[test]
fn empty_rays_are_left_out() {
    let rook = rook_dirs();
    assert_eq!(
        pseudo_moves_at(false, &rook, Square::A1),
        vec![
            vec![
                Square::B1,
                Square::C1,
                Square::D1,
                Square::E1,
                Square::F1,
                Square::G1,
                Square::H1
            ],
            vec![
                Square::A2,
                Square::A3,
                Square::A4,
                Square::A5,
                Square::A6,
                Square::A7,
                Square::A8
            ],
        ]
    );
    let knight = knight_dirs();
    assert_eq!(
        pseudo_moves_at(true, &knight, Square::A1),
        vec![vec![Square::B3], vec![Square::C2]]
    );
    assert_eq!(pseudo_moves_at(true, &knight, Square::E4).len(), 8);
    let bishop = bishop_dirs();
    assert_eq!(pseudo_moves_at(false, &bishop, Square::H1).len(), 1);
    assert_eq!(pseudo_moves_at(false, &bishop, Square::D4).len(), 4);
}

#[test]
fn direction_sets_are_the_usual_ones() {
    assert_eq!(bishop_dirs(), vec![(1, 1), (1, -1), (-1, 1), (-1, -1)]);
    assert_eq!(rook_dirs(), vec![(1, 0), (-1, 0), (0, 1), (0, -1)]);
    let mut queen = bishop_dirs();
    queen.extend(rook_dirs());
    assert_eq!(queen_dirs(), queen);
    assert_eq!(
        knight_dirs(),
        vec![
            (-2, -1),
            (-2, 1),
            (-1, -2),
            (-1, 2),
            (1, -2),
            (1, 2),
            (2, -1),
            (2, 1)
        ]
    );
}

#[test]
fn tables_hold_the_rays_of_every_square() {
    let queen = queen_dirs();
    let table = pseudo_moves(false, &queen);
    let tables = RayTables::new();
    for i in 0..64usize {
        let sq = Square::from_index(i).unwrap();
        assert_eq!(table.get(sq), &pseudo_moves_at(false, &queen, sq));
        assert_eq!(tables.queen(sq), table.get(sq));
        assert_eq!(tables.king(sq), &pseudo_moves_at(true, &queen, sq));
        assert_eq!(tables.knight(sq), &pseudo_moves_at(true, &knight_dirs(), sq));
        assert_eq!(tables.bishop(sq), &pseudo_moves_at(false, &bishop_dirs(), sq));
        assert_eq!(tables.rook(sq), &pseudo_moves_at(false, &rook_dirs(), sq));
        let reached: usize = table.get(sq).iter().map(|r| r.len()).sum();
        let rook_reach: usize = tables.rook(sq).iter().map(|r| r.len()).sum();
        assert_eq!(rook_reach, 14);
        assert!(reached >= 21 && reached <= 27);
        assert!(table.get(sq).iter().all(|r| !r.is_empty()));
    }
    assert_eq!(tables.queen(Square::D4).iter().map(|r| r.len()).sum::<usize>(), 27);
    assert_eq!(tables.king(Square::A1).len(), 3);
    assert_eq!(tables.king(Square::E4).len(), 8);
}

#[test]
fn board_holds_one_value_for_each_square() {
    let mut board = empty_board(0u8);
    for i in 0..64usize {
        assert_eq!(*board.get(Square::from_index(i).unwrap()), 0);
    }
    board.set(Square::C3, 7);
    assert_eq!(*board.get(Square::C3), 7);
    assert_eq!(*board.get(Square::C4), 0);
    assert_eq!(*board.get(Square::B3), 0);
    let indices = each_square(|sq: Square| sq.index());
    for i in 0..64usize {
        assert_eq!(*indices.get(Square::from_index(i).unwrap()), i);
    }
    let mut values = [0usize; 64];
    values[10] = 5;
    let made = Board::new(values);
    assert_eq!(*made.get(Square::C2), 5);
    assert_eq!(*made.get(Square::C3), 0);
}

#[test]
fn starting_board_is_the_standard_array() {
    let board = starting_board();
    let home = [
        Kind::Rook,
        Kind::Knight,
        Kind::Bishop,
        Kind::Queen,
        Kind::King,
        Kind::Bishop,
        Kind::Knight,
        Kind::Rook,
    ];
    for f in 0..8usize {
        let at = |r: usize| *board.get(Square::from_index(r * 8 + f).unwrap());
        assert_eq!(at(0), Piece::of(Color::White, home[f]));
        assert_eq!(at(1), Piece::WP);
        assert_eq!(at(2), Piece::Empty);
        assert_eq!(at(3), Piece::Empty);
        assert_eq!(at(4), Piece::Empty);
        assert_eq!(at(5), Piece::Empty);
        assert_eq!(at(6), Piece::BP);
        assert_eq!(at(7), Piece::of(Color::Black, home[f]));
    }
    assert_eq!(*board.get(Square::E8), Piece::BK);
    assert_eq!(*board.get(Square::D8), Piece::BQ);
}

#[test]
fn pieces_have_a_side_and_a_kind() {
    assert_eq!(Piece::Empty.color(), None);
    assert_eq!(Piece::Empty.kind(), None);
    assert!(Piece::Empty.is_empty());
    assert_eq!(Piece::WN.color(), Some(Color::White));
    assert_eq!(Piece::WN.kind(), Some(Kind::Knight));
    assert_eq!(Piece::BQ.color(), Some(Color::Black));
    assert_eq!(Piece::BQ.kind(), Some(Kind::Queen));
    assert!(Piece::BQ.has_color(Color::Black));
    assert!(!Piece::BQ.has_color(Color::White));
    assert!(!Piece::Empty.has_color(Color::White));
    for i in 0..13usize {
        let p = Piece::from_index(i).unwrap();
        assert_eq!(p.index(), i);
        if let (Some(c), Some(k)) = (p.color(), p.kind()) {
            assert_eq!(Piece::of(c, k), p);
        } else {
            assert_eq!(p, Piece::Empty);
        }
    }
    assert_eq!(Piece::from_index(13), None);
    assert_eq!(Piece::Empty.index(), 0);
    assert_eq!(Piece::WP.index(), 1);
    assert_eq!(Piece::BK.index(), 12);
    assert_eq!(Color::White.opponent(), Color::Black);
    assert_eq!(Color::Black.opponent(), Color::White);
    assert_eq!(Color::White.forward(), 1);
    assert_eq!(Color::Black.forward(), -1);
    assert_eq!(Color::White.pawn_rank(), 1);
    assert_eq!(Color::Black.pawn_rank(), 6);
    assert_eq!(Color::White.last_rank(), 7);
    assert_eq!(Color::Black.last_rank(), 0);
    assert_eq!(Color::White.home_rank(), 0);
    assert_eq!(Color::Black.home_rank(), 7);
}

#[test]
fn line_pieces_attack_until_they_are_blocked() {
    let tables = RayTables::new();
    let board = board_with(&[
        (Square::A1, Piece::WR),
        (Square::A5, Piece::BP),
        (Square::C1, Piece::WB),
        (Square::D4, Piece::WQ),
    ]);
    assert!(is_attacked(&board, &tables, Square::A4, Color::White));
    assert!(is_attacked(&board, &tables, Square::A5, Color::White));
    assert!(!is_attacked(&board, &tables, Square::A6, Color::White));
    assert!(is_attacked(&board, &tables, Square::B1, Color::White));
    assert!(!is_attacked(&board, &tables, Square::D1, Color::Black));
    assert!(is_attacked(&board, &tables, Square::H6, Color::White));
    assert!(is_attacked(&board, &tables, Square::H8, Color::White));
    assert!(is_attacked(&board, &tables, Square::D8, Color::White));
    assert!(!is_attacked(&board, &tables, Square::E6, Color::White));
    assert!(!is_attacked(&board, &tables, Square::C1, Color::White));
}

#[test]
fn pawns_attack_diagonally_forward_only() {
    let tables = RayTables::new();
    let board = board_with(&[(Square::E4, Piece::WP), (Square::C5, Piece::BP)]);
    assert!(is_attacked(&board, &tables, Square::D5, Color::White));
    assert!(is_attacked(&board, &tables, Square::F5, Color::White));
    assert!(!is_attacked(&board, &tables, Square::E5, Color::White));
    assert!(!is_attacked(&board, &tables, Square::D3, Color::White));
    assert!(is_attacked(&board, &tables, Square::B4, Color::Black));
    assert!(is_attacked(&board, &tables, Square::D4, Color::Black));
    assert!(!is_attacked(&board, &tables, Square::C4, Color::Black));
    assert!(!is_attacked(&board, &tables, Square::D6, Color::Black));
}

#[test]
fn knights_and_kings_attack_by_one_step() {
    let tables = RayTables::new();
    let board = board_with(&[(Square::G1, Piece::WN), (Square::E8, Piece::BK)]);
    assert!(is_attacked(&board, &tables, Square::F3, Color::White));
    assert!(is_attacked(&board, &tables, Square::H3, Color::White));
    assert!(is_attacked(&board, &tables, Square::E2, Color::White));
    assert!(!is_attacked(&board, &tables, Square::G3, Color::White));
    assert!(is_attacked(&board, &tables, Square::D7, Color::Black));
    assert!(is_attacked(&board, &tables, Square::F8, Color::Black));
    assert!(!is_attacked(&board, &tables, Square::E6, Color::Black));
    assert!(!is_attacked(&board, &tables, Square::E8, Color::Black));
}
