use terminal_chess::action::Action;
use terminal_chess::board::{Board, Coordinate};
use terminal_chess::engine::rook::{possible_actions, possible_captures, possible_moves};
use terminal_chess::game::GameState;
use terminal_chess::piece::{Piece, Rank};
use terminal_chess::Side;

fn coord(name: &str) -> Coordinate {
    Coordinate::from_human(name.to_string()).unwrap()
}

#[test]
fn moves_in_straight_lines_until_it_hits_something() {
    let mut board = Board::empty();
    board.update(&coord("d4"), Some(Piece::pack(Side::White, Rank::Rook))).unwrap();
    board.update(&coord("g4"), Some(Piece::pack(Side::White, Rank::Bishop))).unwrap(); // In the way
    let state = GameState::with_board(board);

    let valid_moves = possible_moves(&coord("d4"), &state);

    assert_eq!(
        valid_moves,
        vec![
            Action::MovePiece(Piece::pack(Side::White, Rank::Rook), coord("d4"), coord("d5")),
            Action::MovePiece(Piece::pack(Side::White, Rank::Rook), coord("d4"), coord("d6")),
            Action::MovePiece(Piece::pack(Side::White, Rank::Rook), coord("d4"), coord("d7")),
            Action::MovePiece(Piece::pack(Side::White, Rank::Rook), coord("d4"), coord("d8")),
            Action::MovePiece(Piece::pack(Side::White, Rank::Rook), coord("d4"), coord("e4")),
            Action::MovePiece(Piece::pack(Side::White, Rank::Rook), coord("d4"), coord("f4")),
            Action::MovePiece(Piece::pack(Side::White, Rank::Rook), coord("d4"), coord("d3")),
            Action::MovePiece(Piece::pack(Side::White, Rank::Rook), coord("d4"), coord("d2")),
            Action::MovePiece(Piece::pack(Side::White, Rank::Rook), coord("d4"), coord("d1")),
            Action::MovePiece(Piece::pack(Side::White, Rank::Rook), coord("d4"), coord("c4")),
            Action::MovePiece(Piece::pack(Side::White, Rank::Rook), coord("d4"), coord("b4")),
            Action::MovePiece(Piece::pack(Side::White, Rank::Rook), coord("d4"), coord("a4")),
        ]
    );
}

#[test]
fn captures_in_straight_lines() {
    let mut board = Board::empty();
    board.update(&coord("d4"), Some(Piece::pack(Side::White, Rank::Rook))).unwrap();

    board.update(&coord("b4"), Some(Piece::pack(Side::White, Rank::Bishop))).unwrap(); // In the way of the piece below
    board.update(&coord("a4"), Some(Piece::pack(Side::Black, Rank::Bishop))).unwrap();

    board.update(&coord("d1"), Some(Piece::pack(Side::Black, Rank::Bishop))).unwrap();
    board.update(&coord("d6"), Some(Piece::pack(Side::Black, Rank::Bishop))).unwrap();
    board.update(&coord("g4"), Some(Piece::pack(Side::Black, Rank::Bishop))).unwrap();

    let state = GameState::with_board(board);

    let captures = possible_captures(&coord("d4"), &state);

    assert_eq!(
        captures,
        vec![
            Action::Capture(
                Piece::pack(Side::White, Rank::Rook),
                Piece::pack(Side::Black, Rank::Bishop),
                coord("d4"),
                coord("d6")
            ),
            Action::Capture(
                Piece::pack(Side::White, Rank::Rook),
                Piece::pack(Side::Black, Rank::Bishop),
                coord("d4"),
                coord("g4")
            ),
            Action::Capture(
                Piece::pack(Side::White, Rank::Rook),
                Piece::pack(Side::Black, Rank::Bishop),
                coord("d4"),
                coord("d1")
            ),
        ]
    );
}

#[test]
fn a_rook_hemmed_in_at_the_start_has_no_action() {
    let state = GameState::new();
    assert_eq!(possible_actions(&coord("a1"), &state), vec![]);
    assert_eq!(possible_actions(&coord("h8"), &state), vec![]);
}

#[test]
fn the_actions_of_a_rook_are_its_moves_then_its_captures() {
    let mut board = Board::empty();
    let rook = Piece::pack(Side::Black, Rank::Rook);
    let pawn = Piece::pack(Side::White, Rank::Pawn);
    board.update(&coord("a8"), Some(rook)).unwrap();
    board.update(&coord("a6"), Some(pawn)).unwrap();
    board.update(&coord("c8"), Some(Piece::pack(Side::Black, Rank::King))).unwrap();
    let state = GameState::with_board(board);
    // Black's north is down the board, its west towards the h file.
    assert_eq!(
        possible_actions(&coord("a8"), &state),
        vec![
            Action::MovePiece(rook, coord("a8"), coord("a7")),
            Action::MovePiece(rook, coord("a8"), coord("b8")),
            Action::Capture(rook, pawn, coord("a8"), coord("a6")),
        ]
    );
}
