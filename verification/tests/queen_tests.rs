use terminal_chess::action::Action;
use terminal_chess::board::{Board, Coordinate};
use terminal_chess::engine::queen::{possible_actions, possible_captures, possible_moves};
use terminal_chess::game::GameState;
use terminal_chess::piece::{Piece, Rank};
use terminal_chess::Side;

fn coord(name: &str) -> Coordinate {
    Coordinate::from_human(name.to_string()).unwrap()
}

#[test]
fn moves_in_straight_lines_and_diagonally_until_it_hits_something() {
    let mut board = Board::empty();
    board.update(&coord("d4"), Some(Piece::pack(Side::White, Rank::Queen))).unwrap();
    board.update(&coord("g4"), Some(Piece::pack(Side::White, Rank::Bishop))).unwrap(); // In the way

    let state = GameState::with_board(board);

    let valid_moves = possible_moves(&coord("d4"), &state);

    assert_eq!(
        valid_moves,
        vec![
            // North
            Action::MovePiece(Piece::pack(Side::White, Rank::Queen), coord("d4"), coord("d5")),
            Action::MovePiece(Piece::pack(Side::White, Rank::Queen), coord("d4"), coord("d6")),
            Action::MovePiece(Piece::pack(Side::White, Rank::Queen), coord("d4"), coord("d7")),
            Action::MovePiece(Piece::pack(Side::White, Rank::Queen), coord("d4"), coord("d8")),
            // North West
            Action::MovePiece(Piece::pack(Side::White, Rank::Queen), coord("d4"), coord("e5")),
            Action::MovePiece(Piece::pack(Side::White, Rank::Queen), coord("d4"), coord("f6")),
            Action::MovePiece(Piece::pack(Side::White, Rank::Queen), coord("d4"), coord("g7")),
            Action::MovePiece(Piece::pack(Side::White, Rank::Queen), coord("d4"), coord("h8")),
            // West
            Action::MovePiece(Piece::pack(Side::White, Rank::Queen), coord("d4"), coord("e4")),
            Action::MovePiece(Piece::pack(Side::White, Rank::Queen), coord("d4"), coord("f4")),
            // South West
            Action::MovePiece(Piece::pack(Side::White, Rank::Queen), coord("d4"), coord("e3")),
            Action::MovePiece(Piece::pack(Side::White, Rank::Queen), coord("d4"), coord("f2")),
            Action::MovePiece(Piece::pack(Side::White, Rank::Queen), coord("d4"), coord("g1")),
            // South
            Action::MovePiece(Piece::pack(Side::White, Rank::Queen), coord("d4"), coord("d3")),
            Action::MovePiece(Piece::pack(Side::White, Rank::Queen), coord("d4"), coord("d2")),
            Action::MovePiece(Piece::pack(Side::White, Rank::Queen), coord("d4"), coord("d1")),
            // South East
            Action::MovePiece(Piece::pack(Side::White, Rank::Queen), coord("d4"), coord("c3")),
            Action::MovePiece(Piece::pack(Side::White, Rank::Queen), coord("d4"), coord("b2")),
            Action::MovePiece(Piece::pack(Side::White, Rank::Queen), coord("d4"), coord("a1")),
            // East
            Action::MovePiece(Piece::pack(Side::White, Rank::Queen), coord("d4"), coord("c4")),
            Action::MovePiece(Piece::pack(Side::White, Rank::Queen), coord("d4"), coord("b4")),
            Action::MovePiece(Piece::pack(Side::White, Rank::Queen), coord("d4"), coord("a4")),
            // North East
            Action::MovePiece(Piece::pack(Side::White, Rank::Queen), coord("d4"), coord("c5")),
            Action::MovePiece(Piece::pack(Side::White, Rank::Queen), coord("d4"), coord("b6")),
            Action::MovePiece(Piece::pack(Side::White, Rank::Queen), coord("d4"), coord("a7")),
        ]
    );
}

#[test]
fn captures_in_straight_lines_and_diagonally() {
    let mut board = Board::empty();
    board.update(&coord("d4"), Some(Piece::pack(Side::White, Rank::Queen))).unwrap();
    board.update(&coord("g7"), Some(Piece::pack(Side::Black, Rank::Pawn))).unwrap();
    board.update(&coord("b6"), Some(Piece::pack(Side::Black, Rank::Pawn))).unwrap();
    board.update(&coord("c3"), Some(Piece::pack(Side::White, Rank::Pawn))).unwrap();
    board.update(&coord("b2"), Some(Piece::pack(Side::Black, Rank::Pawn))).unwrap();
    board.update(&coord("d6"), Some(Piece::pack(Side::Black, Rank::Bishop))).unwrap();

    let state = GameState::with_board(board);

    let valid_moves = possible_captures(&coord("d4"), &state);

    assert_eq!(
        valid_moves,
        vec![
            Action::Capture(
                state.piece_at(coord("d4")).unwrap().clone(),
                state.piece_at(coord("d6")).unwrap().clone(),
                coord("d4"),
                coord("d6"),
            ),
            Action::Capture(
                state.piece_at(coord("d4")).unwrap().clone(),
                state.piece_at(coord("g7")).unwrap().clone(),
                coord("d4"),
                coord("g7"),
            ),
            Action::Capture(
                state.piece_at(coord("d4")).unwrap().clone(),
                state.piece_at(coord("b6")).unwrap().clone(),
                coord("d4"),
                coord("b6"),
            ),
        ]
    )
}

#[test]
fn a_lone_queen_in_the_corner_has_twenty_one_moves() {
    let mut board = Board::empty();
    board.update(&coord("a1"), Some(Piece::pack(Side::White, Rank::Queen))).unwrap();
    let state = GameState::with_board(board);
    assert_eq!(possible_moves(&coord("a1"), &state).len(), 21);
    assert_eq!(possible_captures(&coord("a1"), &state), vec![]);
    assert_eq!(possible_actions(&coord("a1"), &state).len(), 21);
}
