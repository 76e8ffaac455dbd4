use terminal_chess::action::{to_coordinate_for, Action, CastleSide};
use terminal_chess::board::{Board, Coordinate};
use terminal_chess::engine::mover::{Direction, Mover};
use terminal_chess::engine::ray::{find_moves_in_direction, find_opposing_piece_in_direction};
use terminal_chess::engine::{
    action_matches_coordinate, enumerate_all_actions, is_in_check, is_in_checkmate,
    opponent_can_capture, possible_actions,
};
use terminal_chess::error::Error;
use terminal_chess::game::{Game, GameState};
use terminal_chess::piece::{Piece, Rank};
use terminal_chess::Side;

fn coord(name: &str) -> Coordinate {
    Coordinate::from_human(name.to_string()).unwrap()
}

#[test]
fn can_detect_check() {
    let mut board = Board::empty();
    board.update(&coord("d4"), Some(Piece::pack(Side::White, Rank::King))).unwrap();
    board.update(&coord("e4"), Some(Piece::pack(Side::Black, Rank::Queen))).unwrap();
    let mut state = GameState::with_board(board);

    assert!(is_in_check(&mut state, Side::White));
}

#[test]
fn can_detect_when_not_in_check() {
    let mut board = Board::empty();

    board.update(&coord("d4"), Some(Piece::pack(Side::White, Rank::King))).unwrap();
    board.update(&coord("a1"), Some(Piece::pack(Side::Black, Rank::Rook))).unwrap();

    let mut state = GameState::with_board(board);

    assert!(!is_in_check(&mut state, Side::White));
}

#[test]
fn dis_bug() {
    let mut game = Game::new();

    game.advance(Action::MovePiece(
        Piece::pack(Side::White, Rank::Pawn),
        Coordinate::from_human("e2".to_owned()).unwrap(),
        Coordinate::from_human("e3".to_owned()).unwrap(),
    ))
    .unwrap();

    game.advance(Action::MovePiece(
        Piece::pack(Side::Black, Rank::Pawn),
        Coordinate::from_human("d7".to_owned()).unwrap(),
        Coordinate::from_human("d6".to_owned()).unwrap(),
    ))
    .unwrap();

    game.advance(Action::MovePiece(
        Piece::pack(Side::White, Rank::Bishop),
        Coordinate::from_human("f1".to_owned()).unwrap(),
        Coordinate::from_human("b5".to_owned()).unwrap(),
    ))
    .unwrap();

    assert!(is_in_check(game.state(), Side::Black));
}

#[test]
fn prunes_moves_that_do_not_get_the_player_out_of_check() {
    let mut board = Board::empty();

    board.update(&coord("a2"), Some(Piece::pack(Side::Black, Rank::King))).unwrap();
    board.update(&coord("h1"), Some(Piece::pack(Side::White, Rank::King))).unwrap();
    board.update(&coord("h8"), Some(Piece::pack(Side::Black, Rank::Queen))).unwrap();
    board.update(&coord("g1"), Some(Piece::pack(Side::White, Rank::Rook))).unwrap();

    let mut state = GameState::with_board(board);

    assert_eq!(
        possible_actions(&coord("h1"), &mut state),
        vec![Action::MovePiece(
            Piece::pack(Side::White, Rank::King),
            Coordinate::from_human("h1".to_owned()).unwrap(),
            Coordinate::from_human("g2".to_owned()).unwrap()
        )]
    );
}

#[test]
fn detects_checkmate() {
    let mut board = Board::empty();

    board.update(&coord("a1"), Some(Piece::pack(Side::White, Rank::King))).unwrap();
    board.update(&coord("h1"), Some(Piece::pack(Side::Black, Rank::King))).unwrap();
    board.update(&coord("b2"), Some(Piece::pack(Side::Black, Rank::Queen))).unwrap();
    board.update(&coord("d2"), Some(Piece::pack(Side::Black, Rank::Rook))).unwrap();

    let mut state = GameState::with_board(board);

    assert!(is_in_checkmate(&mut state, Side::White));
}

#[test]
fn the_blocking_rook_may_not_leave_its_file() {
    let mut board = Board::empty();
    let rook = Piece::pack(Side::White, Rank::Rook);
    board.update(&coord("a2"), Some(Piece::pack(Side::Black, Rank::King))).unwrap();
    board.update(&coord("h1"), Some(Piece::pack(Side::White, Rank::King))).unwrap();
    board.update(&coord("h8"), Some(Piece::pack(Side::Black, Rank::Queen))).unwrap();
    board.update(&coord("h2"), Some(rook)).unwrap();
    let mut state = GameState::with_board(board);
    let before = state.clone();
    // The rook shields the king from the queen: it may go up its file, up to
    // taking the queen, and nowhere else.
    let queen = Piece::pack(Side::Black, Rank::Queen);
    assert_eq!(
        possible_actions(&coord("h2"), &mut state),
        vec![
            Action::MovePiece(rook, coord("h2"), coord("h3")),
            Action::MovePiece(rook, coord("h2"), coord("h4")),
            Action::MovePiece(rook, coord("h2"), coord("h5")),
            Action::MovePiece(rook, coord("h2"), coord("h6")),
            Action::MovePiece(rook, coord("h2"), coord("h7")),
            Action::Capture(rook, queen, coord("h2"), coord("h8")),
        ]
    );
    assert_eq!(enumerate_all_actions(&coord("h2"), &state).len(), 13);
    assert_eq!(state, before);
    assert!(!is_in_checkmate(&mut state, Side::White));
    assert_eq!(state, before);
    assert_eq!(possible_actions(&coord("d5"), &mut state), vec![]);
}

#[test]
fn a_side_without_a_legal_action_need_not_be_in_check() {
    let mut board = Board::empty();
    board.update(&coord("a1"), Some(Piece::pack(Side::White, Rank::King))).unwrap();
    board.update(&coord("b3"), Some(Piece::pack(Side::Black, Rank::Queen))).unwrap();
    board.update(&coord("h8"), Some(Piece::pack(Side::Black, Rank::King))).unwrap();
    let mut state = GameState::with_board(board);
    assert!(!is_in_check(&state, Side::White));
    assert!(is_in_checkmate(&mut state, Side::White));
    assert!(state.has_completed());
    assert!(!is_in_checkmate(&mut state, Side::Black));
}

#[test]
fn a_knight_gives_check_whoever_is_to_move() {
    let mut board = Board::empty();
    board.update(&coord("e1"), Some(Piece::pack(Side::White, Rank::King))).unwrap();
    board.update(&coord("f3"), Some(Piece::pack(Side::Black, Rank::Knight))).unwrap();
    board.update(&coord("e8"), Some(Piece::pack(Side::Black, Rank::King))).unwrap();
    let state = GameState::with_board(board);
    assert!(is_in_check(&state, Side::White));
    assert!(is_in_check(&state.peek_into_the_future(), Side::White));
    assert!(!is_in_check(&state, Side::Black));
    assert!(opponent_can_capture(&coord("e1"), Side::White, &state));
    assert!(opponent_can_capture(&coord("d2"), Side::White, &state));
    assert!(!opponent_can_capture(&coord("d1"), Side::White, &state));
    assert!(opponent_can_capture(&coord("d1"), Side::Black, &state));
}

#[test]
fn the_mover_mirrors_its_steps_by_side() {
    let from = coord("d4");
    assert_eq!(Mover::new(Side::White).move_to(&from).north().make(), Ok(coord("d5")));
    assert_eq!(Mover::new(Side::Black).move_to(&from).north().make(), Ok(coord("d3")));
    assert_eq!(Mover::new(Side::White).move_to(&from).south().make(), Ok(coord("d3")));
    assert_eq!(Mover::new(Side::Black).move_to(&from).south().make(), Ok(coord("d5")));
    assert_eq!(Mover::new(Side::White).move_to(&from).east().make(), Ok(coord("e4")));
    assert_eq!(Mover::new(Side::Black).move_to(&from).east().make(), Ok(coord("c4")));
    assert_eq!(Mover::new(Side::White).move_to(&from).west().make(), Ok(coord("c4")));
    assert_eq!(Mover::new(Side::Black).move_to(&from).west().make(), Ok(coord("e4")));
    assert_eq!(Mover::new(Side::White).make(), Ok(coord("a1")));
    assert_eq!(Mover::new(Side::White).south().make(), Err(Error::OutOfBounds));
    assert_eq!(Mover::new(Side::White).west().make(), Err(Error::OutOfBounds));
    assert_eq!(Mover::new(Side::White).move_to(&coord("h8")).north().make(), Err(Error::OutOfBounds));
    assert_eq!(Mover::new(Side::White).move_to(&coord("h8")).east().make(), Err(Error::OutOfBounds));
    assert_eq!(
        Direction::NorthEast.drive(Mover::new(Side::White).move_to(&from)).make(),
        Ok(coord("e5"))
    );
    assert_eq!(
        Direction::SouthWest.drive(Mover::new(Side::Black).move_to(&from)).make(),
        Ok(coord("e5"))
    );
}

#[test]
fn a_ray_stops_before_the_first_piece_and_at_the_edge() {
    let mut board = Board::empty();
    board.update(&coord("a1"), Some(Piece::pack(Side::White, Rank::Rook))).unwrap();
    board.update(&coord("a5"), Some(Piece::pack(Side::Black, Rank::Pawn))).unwrap();
    board.update(&coord("d1"), Some(Piece::pack(Side::White, Rank::Pawn))).unwrap();
    assert_eq!(
        find_moves_in_direction(&coord("a1"), Side::White, &board, Direction::North),
        vec![coord("a2"), coord("a3"), coord("a4")]
    );
    assert_eq!(
        find_moves_in_direction(&coord("a1"), Side::White, &board, Direction::East),
        vec![coord("b1"), coord("c1")]
    );
    assert_eq!(find_moves_in_direction(&coord("a1"), Side::White, &board, Direction::South), vec![]);
    assert_eq!(
        find_moves_in_direction(&coord("a1"), Side::White, &board, Direction::NorthEast).len(),
        7
    );
    assert_eq!(
        find_opposing_piece_in_direction(&coord("a1"), Side::White, &board, Direction::North),
        Some(coord("a5"))
    );
    assert_eq!(
        find_opposing_piece_in_direction(&coord("a1"), Side::White, &board, Direction::East),
        None
    );
    assert_eq!(
        find_opposing_piece_in_direction(&coord("a1"), Side::White, &board, Direction::NorthEast),
        None
    );
    assert_eq!(
        find_opposing_piece_in_direction(&coord("a1"), Side::Black, &board, Direction::West),
        Some(coord("d1"))
    );
}

#[test]
fn only_moves_and_captures_end_on_a_square() {
    let pawn = Piece::pack(Side::White, Rank::Pawn);
    let queen = Piece::pack(Side::Black, Rank::Queen);
    let quiet = Action::MovePiece(pawn, coord("e2"), coord("e3"));
    let taking = Action::Capture(pawn, queen, coord("e2"), coord("d3"));
    assert_eq!(*to_coordinate_for(&quiet), coord("e3"));
    assert_eq!(*to_coordinate_for(&taking), coord("d3"));
    assert!(action_matches_coordinate(&quiet, &coord("e3")));
    assert!(!action_matches_coordinate(&quiet, &coord("e2")));
    assert!(action_matches_coordinate(&taking, &coord("d3")));
    assert!(!action_matches_coordinate(&Action::Castle(CastleSide::QueenSide), &coord("c1")));
    assert!(!action_matches_coordinate(
        &Action::Promotion(pawn, queen, coord("e7"), coord("e8")),
        &coord("e8")
    ));
}
