use terminal_chess::action::{Action, CastleSide};
use terminal_chess::board::{Board, Coordinate};
use terminal_chess::error::Error;
use terminal_chess::game::{Game, GameState};
use terminal_chess::piece::{Piece, Rank};
use terminal_chess::Side;

fn coord(name: &str) -> Coordinate {
    Coordinate::from_human(name.to_string()).unwrap()
}

#[test]
fn it_initializes_the_game() {
    let game = Game::new();

    assert_eq!(game.history().len(), 0);
    assert_eq!(game.current_turn(), Side::White);
    assert_eq!(*game.board(), Board::default());
}

#[test]
fn game_coordinates_can_be_created_from_human_readable_strings() {
    // Note we store 0-indexed

    let coord = Coordinate::from_human("b5".to_owned()).unwrap();
    assert_eq!(coord.row(), 4, "Incorrect row index parserd");
    assert_eq!(coord.column(), 1, "Incorrect column index parserd");

    let coord = Coordinate::from_human("a1".to_owned()).unwrap();
    assert_eq!(coord.row(), 0, "Incorrect row index parserd");
    assert_eq!(coord.column(), 0, "Incorrect column index parserd");

    let coord = Coordinate::from_human("h8".to_owned()).unwrap();
    assert_eq!(coord.row(), 7, "Incorrect row index parserd");
    assert_eq!(coord.column(), 7, "Incorrect column index parserd");
}

#[test]
fn can_undo_moves() {
    let mut state = GameState::new();

    state
        .advance(Action::MovePiece(
            Piece::pack(Side::White, Rank::Pawn),
            Coordinate::from_human("e2".to_owned()).unwrap(),
            Coordinate::from_human("e3".to_owned()).unwrap(),
        ))
        .unwrap();

    state.undo().unwrap();

    assert_eq!(state, GameState::new());
}

#[test]
fn can_undo_captures() {
    let mut board = Board::empty();
    board.update(&coord("a2"), Some(Piece::pack(Side::White, Rank::King))).unwrap();
    board.update(&coord("h1"), Some(Piece::pack(Side::Black, Rank::King))).unwrap();
    board.update(&coord("h8"), Some(Piece::pack(Side::White, Rank::Queen))).unwrap();
    board.update(&coord("a1"), Some(Piece::pack(Side::Black, Rank::Rook))).unwrap();
    let state = GameState::with_board(board);

    let mut new_state = state.clone();

    new_state
        .advance(Action::Capture(
            Piece::pack(Side::White, Rank::Queen),
            Piece::pack(Side::Black, Rank::Rook),
            Coordinate::from_human("h8".to_owned()).unwrap(),
            Coordinate::from_human("a1".to_owned()).unwrap(),
        ))
        .unwrap();

    new_state.undo().unwrap();

    assert_eq!(new_state, state);
}

#[test]
fn undoing_without_a_history_is_a_noop() {
    let mut state = GameState::new();

    state.undo().unwrap();

    assert_eq!(state, GameState::new());
}

#[test]
fn a_move_changes_two_cells_the_history_and_the_turn() {
    let mut state = GameState::new();
    let pawn = Piece::pack(Side::White, Rank::Pawn);
    let action = Action::MovePiece(pawn, coord("e2"), coord("e4"));
    assert_eq!(state.advance(action), Ok(()));
    assert_eq!(*state.piece_at(coord("e4")), Some(pawn));
    assert_eq!(*state.piece_at(coord("e2")), None);
    assert_eq!(*state.history(), vec![action]);
    assert_eq!(*state.captured(), vec![]);
    assert_eq!(state.next_to_move(), Side::Black);
    let mut expected = Board::default();
    expected.update(&coord("e2"), None).unwrap();
    expected.update(&coord("e4"), Some(pawn)).unwrap();
    assert_eq!(*state.board(), expected);
}

#[test]
fn a_capture_records_the_piece_taken() {
    let queen = Piece::pack(Side::White, Rank::Queen);
    let rook = Piece::pack(Side::Black, Rank::Rook);
    let mut board = Board::empty();
    board.update(&coord("h8"), Some(queen)).unwrap();
    board.update(&coord("a1"), Some(rook)).unwrap();
    let mut state = GameState::with_board(board);
    let action = Action::Capture(queen, rook, coord("h8"), coord("a1"));
    assert_eq!(state.advance(action), Ok(()));
    assert_eq!(*state.piece_at(coord("a1")), Some(queen));
    assert_eq!(*state.piece_at(coord("h8")), None);
    assert_eq!(*state.captured(), vec![rook]);
    assert_eq!(*state.history(), vec![action]);
    assert_eq!(state.next_to_move(), Side::Black);
    assert_eq!(state.undo(), Ok(()));
    assert_eq!(*state.captured(), vec![]);
    assert_eq!(*state.piece_at(coord("a1")), Some(rook));
    assert_eq!(*state.piece_at(coord("h8")), Some(queen));
    assert_eq!(state, GameState::with_board(board));
}

#[test]
fn the_turn_alternates_with_each_action_applied() {
    let mut state = GameState::new();
    let white_pawn = Piece::pack(Side::White, Rank::Pawn);
    let black_pawn = Piece::pack(Side::Black, Rank::Pawn);
    assert_eq!(state.next_to_move(), Side::White);
    state.advance(Action::MovePiece(white_pawn, coord("a2"), coord("a3"))).unwrap();
    assert_eq!(state.next_to_move(), Side::Black);
    state.advance(Action::MovePiece(black_pawn, coord("a7"), coord("a6"))).unwrap();
    assert_eq!(state.next_to_move(), Side::White);
    state.advance(Action::MovePiece(white_pawn, coord("b2"), coord("b3"))).unwrap();
    assert_eq!(state.next_to_move(), Side::Black);
    assert_eq!(state.history().len(), 3);
    state.undo().unwrap();
    state.undo().unwrap();
    assert_eq!(state.next_to_move(), Side::Black);
    assert_eq!(state.history().len(), 1);
}

#[test]
fn actions_that_cannot_be_applied_are_refused_and_change_nothing() {
    let mut state = GameState::new();
    let pawn = Piece::pack(Side::White, Rank::Pawn);
    let queen = Piece::pack(Side::White, Rank::Queen);
    assert_eq!(state.advance(Action::Castle(CastleSide::QueenSide)), Err(Error::Unsupported));
    assert_eq!(state.advance(Action::Castle(CastleSide::KingSide)), Err(Error::Unsupported));
    assert_eq!(
        state.advance(Action::Promotion(pawn, queen, coord("e7"), coord("e8"))),
        Err(Error::Unsupported)
    );
    assert_eq!(
        state.advance(Action::MovePiece(pawn, coord("e2"), Coordinate::new(8, 4))),
        Err(Error::InvalidCoordinate)
    );
    assert_eq!(
        state.advance(Action::Capture(pawn, queen, Coordinate::new(1, 9), coord("e3"))),
        Err(Error::InvalidCoordinate)
    );
    assert_eq!(state, GameState::new());
}

#[test]
fn evaluating_with_an_action_leaves_the_position_as_it_was() {
    let mut state = GameState::new();
    let pawn = Piece::pack(Side::White, Rank::Pawn);
    let seen = state.evaluate_with_action(
        Action::MovePiece(pawn, coord("e2"), coord("e4")),
        |reached: &GameState| (reached.next_to_move(), *reached.piece_at(coord("e4")), reached.history().len()),
    );
    assert_eq!(seen, (Side::Black, Some(pawn), 1));
    assert_eq!(state, GameState::new());
    // An action that cannot be applied is evaluated on the position as it is.
    let seen = state.evaluate_with_action(Action::Castle(CastleSide::QueenSide), |reached: &GameState| {
        (reached.next_to_move(), reached.history().len())
    });
    assert_eq!(seen, (Side::White, 0));
    assert_eq!(state, GameState::new());
}

#[test]
fn peeking_into_the_future_passes_the_turn_only() {
    let state = GameState::new();
    let peeked = state.peek_into_the_future();
    assert_eq!(peeked.next_to_move(), Side::Black);
    assert_eq!(*peeked.board(), Board::default());
    assert_eq!(peeked.history().len(), 0);
    assert_eq!(peeked.peek_into_the_future(), state);
}

#[test]
fn actions_are_offered_to_the_side_to_move_only() {
    let mut state = GameState::new();
    let pawn = Piece::pack(Side::White, Rank::Pawn);
    assert_eq!(
        state.actions_at(coord("e2")),
        vec![
            Action::MovePiece(pawn, coord("e2"), coord("e3")),
            Action::MovePiece(pawn, coord("e2"), coord("e4")),
        ]
    );
    // Black is not to move, and e4 is empty.
    assert_eq!(state.actions_at(coord("e7")), vec![]);
    assert_eq!(state.actions_at(coord("e4")), vec![]);
    assert!(!state.has_completed());
    assert_eq!(state, GameState::new());
}

#[test]
fn a_game_carries_its_state_forward() {
    let mut game = Game::new();
    let pawn = Piece::pack(Side::White, Rank::Pawn);
    assert!(!game.has_completed());
    assert_eq!(game.advance(Action::MovePiece(pawn, coord("d2"), coord("d4"))), Ok(()));
    assert_eq!(game.current_turn(), Side::Black);
    assert_eq!(game.history().len(), 1);
    assert_eq!(*game.state().piece_at(coord("d4")), Some(pawn));
    game.state_mut().undo().unwrap();
    assert_eq!(game, Game::new());
    assert_eq!(game.advance(Action::Castle(CastleSide::QueenSide)), Err(Error::Unsupported));
}
