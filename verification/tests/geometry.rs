use chess_kernel::{on_board, rank, square, Error, Square};

#[test]
fn square_of_file_and_rank_round_trips() {
    for i in 0..64usize {
        let s = Square::from_index(i).unwrap();
        assert_eq!(s.index(), i);
        assert_eq!(square(chess_kernel::file(s), rank(s)), Ok(s));
    }
}

#[test]
fn file_and_rank_of_square_round_trip() {
    for f in 0..8i8 {
        for r in 0..8i8 {
            let s = square(f, r).unwrap();
            assert_eq!(chess_kernel::file(s), f);
            assert_eq!(rank(s), r);
        }
    }
}

#[test]
fn squares_are_rank_major() {
    assert_eq!(square(0, 0), Ok(Square::A1));
    assert_eq!(square(7, 0), Ok(Square::H1));
    assert_eq!(square(0, 1), Ok(Square::A2));
    assert_eq!(square(4, 3), Ok(Square::E4));
    assert_eq!(square(7, 7), Ok(Square::H8));
    assert_eq!(Square::C3.index(), 18);
    assert_eq!(Square::from_index(64), None);
}

#[test]
fn square_rejects_coordinates_off_the_board() {
    assert_eq!(square(8, 0), Err(Error::OutOfBounds));
    assert_eq!(square(0, 8), Err(Error::OutOfBounds));
    assert_eq!(square(-1, 3), Err(Error::OutOfBounds));
    assert_eq!(square(3, -1), Err(Error::OutOfBounds));
    assert_eq!(square(127, 127), Err(Error::OutOfBounds));
}

#[test]
fn on_board_holds_inside_zero_to_seven() {
    assert!(on_board(0, 0));
    assert!(on_board(7, 7));
    assert!(!on_board(8, 7));
    assert!(!on_board(7, 8));
    assert!(!on_board(-1, 0));
    assert!(!on_board(0, -1));
}
