use terminal_chess::board::{Board, Coordinate};
use terminal_chess::error::Error;
use terminal_chess::piece::{Piece, Rank};
use terminal_chess::Side;

fn coord(name: &str) -> Coordinate {
    Coordinate::from_human(name.to_string()).unwrap()
}

#[test]
fn board_coordinates_can_be_created_from_human_readable_strings() {
    // Note we store 0-indexed

    let coord = Coordinate::from_human("b5".to_owned()).unwrap();
    assert_eq!(coord.row(), 4, "Incorrect row index parserd");
    assert_eq!(coord.column(), 1, "Incorrect column index parserd");

    let coord = Coordinate::from_human("a1".to_owned()).unwrap();
    assert_eq!(coord.row(), 0, "Incorrect row index parserd");
    assert_eq!(coord.column(), 0, "Incorrect column index parserd");

    let coord = Coordinate::from_human("h8".to_owned()).unwrap();
    assert_eq!(coord.row(), 7, "Incorrect row index parserd");
    assert_eq!(coord.column(), 7, "Incorrect column index parserd");
}

#[test]
fn pieces_are_at_correct_starting_position() {
    let board = Board::default();

    assert_eq!(*board.piece_at(coord("a1")), Some(Piece::pack(Side::White, Rank::Rook)));
    assert_eq!(*board.piece_at(coord("b1")), Some(Piece::pack(Side::White, Rank::Knight)));
    assert_eq!(*board.piece_at(coord("c1")), Some(Piece::pack(Side::White, Rank::Bishop)));
    assert_eq!(*board.piece_at(coord("d1")), Some(Piece::pack(Side::White, Rank::Queen)));
    assert_eq!(*board.piece_at(coord("e1")), Some(Piece::pack(Side::White, Rank::King)));
    assert_eq!(*board.piece_at(coord("f1")), Some(Piece::pack(Side::White, Rank::Bishop)));
    assert_eq!(*board.piece_at(coord("g1")), Some(Piece::pack(Side::White, Rank::Knight)));
    assert_eq!(*board.piece_at(coord("h1")), Some(Piece::pack(Side::White, Rank::Rook)));

    assert_eq!(*board.piece_at(coord("a2")), Some(Piece::pack(Side::White, Rank::Pawn)));
    assert_eq!(*board.piece_at(coord("b2")), Some(Piece::pack(Side::White, Rank::Pawn)));
    assert_eq!(*board.piece_at(coord("c2")), Some(Piece::pack(Side::White, Rank::Pawn)));
    assert_eq!(*board.piece_at(coord("d2")), Some(Piece::pack(Side::White, Rank::Pawn)));
    assert_eq!(*board.piece_at(coord("e2")), Some(Piece::pack(Side::White, Rank::Pawn)));
    assert_eq!(*board.piece_at(coord("f2")), Some(Piece::pack(Side::White, Rank::Pawn)));
    assert_eq!(*board.piece_at(coord("g2")), Some(Piece::pack(Side::White, Rank::Pawn)));
    assert_eq!(*board.piece_at(coord("h2")), Some(Piece::pack(Side::White, Rank::Pawn)));

    assert_eq!(*board.piece_at(coord("a8")), Some(Piece::pack(Side::Black, Rank::Rook)));
    assert_eq!(*board.piece_at(coord("b8")), Some(Piece::pack(Side::Black, Rank::Knight)));
    assert_eq!(*board.piece_at(coord("c8")), Some(Piece::pack(Side::Black, Rank::Bishop)));
    assert_eq!(*board.piece_at(coord("d8")), Some(Piece::pack(Side::Black, Rank::Queen)));
    assert_eq!(*board.piece_at(coord("e8")), Some(Piece::pack(Side::Black, Rank::King)));
    assert_eq!(*board.piece_at(coord("f8")), Some(Piece::pack(Side::Black, Rank::Bishop)));
    assert_eq!(*board.piece_at(coord("g8")), Some(Piece::pack(Side::Black, Rank::Knight)));
    assert_eq!(*board.piece_at(coord("h8")), Some(Piece::pack(Side::Black, Rank::Rook)));

    assert_eq!(*board.piece_at(coord("a7")), Some(Piece::pack(Side::Black, Rank::Pawn)));
    assert_eq!(*board.piece_at(coord("b7")), Some(Piece::pack(Side::Black, Rank::Pawn)));
    assert_eq!(*board.piece_at(coord("c7")), Some(Piece::pack(Side::Black, Rank::Pawn)));
    assert_eq!(*board.piece_at(coord("d7")), Some(Piece::pack(Side::Black, Rank::Pawn)));
    assert_eq!(*board.piece_at(coord("e7")), Some(Piece::pack(Side::Black, Rank::Pawn)));
    assert_eq!(*board.piece_at(coord("f7")), Some(Piece::pack(Side::Black, Rank::Pawn)));
    assert_eq!(*board.piece_at(coord("g7")), Some(Piece::pack(Side::Black, Rank::Pawn)));
    assert_eq!(*board.piece_at(coord("h7")), Some(Piece::pack(Side::Black, Rank::Pawn)));
}

#[test]
fn finds_coordinates_of_pieces_on_the_board() {
    let board = Board::default();

    assert_eq!(
        board.find_pieces(Piece::pack(Side::Black, Rank::King)),
        vec![coord("e8")]
    );

    assert_eq!(
        board.find_pieces(Piece::pack(Side::Black, Rank::Knight)),
        vec![coord("b8"), coord("g8")]
    );
}

#[test]
fn every_square_round_trips_through_its_name() {
    for row in 0..8 {
        for column in 0..8 {
            let c = Coordinate::new(row, column);
            assert_eq!(Coordinate::from_human(c.to_human()), Ok(c));
        }
    }
    assert_eq!(Coordinate::new(3, 4).to_human(), "e4");
    assert_eq!(Coordinate::new(0, 0).to_human(), "a1");
    assert_eq!(Coordinate::new(7, 7).to_human(), "h8");
    assert_eq!(Coordinate::from_human("e2".to_string()), Ok(Coordinate::new(1, 4)));
}

#[test]
fn names_that_are_no_square_are_refused() {
    for bad in ["", "e", "e22", "i1", "a0", "a9", "A1", "4e", "e ", "é1", "eé"] {
        assert_eq!(
            Coordinate::from_human(bad.to_string()),
            Err(Error::InvalidCoordinate),
            "{:?}",
            bad
        );
    }
}

#[test]
fn checked_construction_refuses_squares_off_the_board() {
    assert_eq!(Coordinate::new_safe(7, 7), Ok(Coordinate::new(7, 7)));
    assert_eq!(Coordinate::new_safe(0, 0), Ok(Coordinate::new(0, 0)));
    assert_eq!(Coordinate::new_safe(8, 0), Err(Error::InvalidCoordinate));
    assert_eq!(Coordinate::new_safe(0, 8), Err(Error::InvalidCoordinate));
    assert_eq!(Coordinate::new(3, 5).check(), Ok(()));
    assert_eq!(Coordinate::new(3, 8).check(), Err(Error::InvalidCoordinate));
    assert_eq!(Coordinate::new(9, 2).row(), 9);
    assert_eq!(Coordinate::new(9, 2).column(), 2);
}

#[test]
fn update_overwrites_one_cell_and_refuses_squares_off_the_board() {
    let mut board = Board::empty();
    let rook = Piece::pack(Side::White, Rank::Rook);
    let pawn = Piece::pack(Side::Black, Rank::Pawn);
    assert_eq!(board.update(&coord("c3"), Some(rook)), Ok(()));
    assert_eq!(*board.piece_at(coord("c3")), Some(rook));
    assert!(!board.is_empty(coord("c3")));
    assert!(board.is_empty(coord("c4")));
    // No check that the square is free: the cell is overwritten.
    assert_eq!(board.update(&coord("c3"), Some(pawn)), Ok(()));
    assert_eq!(*board.piece_at(coord("c3")), Some(pawn));
    let before = board;
    assert_eq!(board.update(&Coordinate::new(8, 3), Some(rook)), Err(Error::InvalidCoordinate));
    assert_eq!(board, before);
    assert_eq!(board.update(&coord("c3"), None), Ok(()));
    assert_eq!(board, Board::empty());
}

#[test]
fn pieces_are_listed_row_by_row() {
    let mut board = Board::empty();
    let rook = Piece::pack(Side::White, Rank::Rook);
    let pawn = Piece::pack(Side::Black, Rank::Pawn);
    board.update(&coord("h8"), Some(pawn)).unwrap();
    board.update(&coord("b1"), Some(rook)).unwrap();
    board.update(&coord("a2"), Some(pawn)).unwrap();
    assert_eq!(
        board.pieces_with_coordinates(),
        vec![(coord("b1"), rook), (coord("a2"), pawn), (coord("h8"), pawn)]
    );
    assert_eq!(Board::default().pieces_with_coordinates().len(), 32);
    assert_eq!(Board::empty().pieces_with_coordinates(), vec![]);
    assert_eq!(board.find_pieces(pawn), vec![coord("a2"), coord("h8")]);
    assert_eq!(board.rows().len(), 8);
    assert_eq!(board.rows()[0][1], Some(rook));
}
