use terminal_chess::action::Action;
use terminal_chess::board::{Board, Coordinate};
use terminal_chess::game::Game;
use terminal_chess::new_session;
use terminal_chess::piece::{Piece, Rank};
use terminal_chess::session::{Key, Session, SessionState};
use terminal_chess::ui::{
    column_iterator, format_piece, is_chosen_square, is_possible_action, is_under_cursor,
    matches_coordinate, row_iterator, shade_of, Cursor, Shade,
};
use terminal_chess::Side;

fn coord(name: &str) -> Coordinate {
    Coordinate::from_human(name.to_string()).unwrap()
}

#[test]
fn a_session_starts_with_a_new_game_and_nothing_selected() {
    let session = new_session();
    assert_eq!(session, Session::new());
    assert_eq!(*session.game(), Game::new());
    assert_eq!(*session.cursor(), Cursor::new(Side::White));
    assert_eq!(session.cursor().to_coord(), coord("a1"));
    assert_eq!(session.player_as(), Side::White);
    assert_eq!(*session.state(), SessionState::NothingSelected);
}

#[test]
fn the_cursor_stays_on_the_board() {
    let mut cursor = Cursor::new(Side::White);
    cursor.down();
    cursor.left();
    assert_eq!((cursor.row(), cursor.column()), (0, 0));
    cursor.up();
    cursor.right();
    cursor.right();
    assert_eq!((cursor.row(), cursor.column()), (1, 2));
    assert_eq!(cursor.to_coord(), coord("c2"));
    for _ in 0..10 {
        cursor.up();
        cursor.right();
    }
    assert_eq!(cursor.to_coord(), coord("h8"));

    // Black sees the board from the other side.
    let mut cursor = Cursor::new(Side::Black);
    cursor.up();
    cursor.right();
    assert_eq!(cursor.to_coord(), coord("a1"));
    cursor.down();
    cursor.left();
    cursor.left();
    assert_eq!(cursor.to_coord(), coord("c2"));
    for _ in 0..10 {
        cursor.down();
        cursor.left();
    }
    assert_eq!(cursor.to_coord(), coord("h8"));
}

#[test]
fn the_space_bar_selects_a_piece_and_then_moves_it() {
    let mut session = Session::new();
    let pawn = Piece::pack(Side::White, Rank::Pawn);
    // An empty square, then a piece of the side that is not to move.
    for _ in 0..3 {
        session.update(Key::Up);
    }
    session.update(Key::Char(' '));
    assert_eq!(*session.state(), SessionState::NothingSelected);
    for _ in 0..3 {
        session.update(Key::Up);
    }
    assert_eq!(session.cursor().to_coord(), coord("a7"));
    session.update(Key::Char(' '));
    assert_eq!(*session.state(), SessionState::NothingSelected);
    // The pawn on a2.
    for _ in 0..5 {
        session.update(Key::Down);
    }
    session.update(Key::Char(' '));
    let offered = vec![
        Action::MovePiece(pawn, coord("a2"), coord("a3")),
        Action::MovePiece(pawn, coord("a2"), coord("a4")),
    ];
    assert_eq!(*session.state(), SessionState::CoordinateSelected(coord("a2"), offered.clone()));
    // Another piece of the same side: the selection moves to it.
    session.update(Key::Right);
    session.update(Key::Char(' '));
    assert_eq!(
        *session.state(),
        SessionState::CoordinateSelected(
            coord("b2"),
            vec![
                Action::MovePiece(pawn, coord("b2"), coord("b3")),
                Action::MovePiece(pawn, coord("b2"), coord("b4")),
            ]
        )
    );
    // The same square again: the selection is cleared.
    session.update(Key::Char(' '));
    assert_eq!(*session.state(), SessionState::NothingSelected);
    // Select b2 once more and move to b4.
    session.update(Key::Char(' '));
    session.update(Key::Up);
    session.update(Key::Up);
    session.update(Key::Char(' '));
    assert_eq!(*session.state(), SessionState::NothingSelected);
    assert_eq!(*session.game().history(), vec![Action::MovePiece(pawn, coord("b2"), coord("b4"))]);
    assert_eq!(session.game().current_turn(), Side::Black);
    assert_eq!(*session.game().state().piece_at(coord("b4")), Some(pawn));
    assert!(!session.is_over());
}

#[test]
fn an_empty_square_or_a_piece_of_the_other_side_ends_a_selection_differently() {
    let mut session = Session::new();
    session.update(Key::Up);
    session.update(Key::Char(' '));
    assert!(matches!(*session.state(), SessionState::CoordinateSelected(_, _)));
    let selected = session.state().clone();
    // A piece of the other side: the selection stays.
    for _ in 0..5 {
        session.update(Key::Up);
    }
    session.update(Key::Char(' '));
    assert_eq!(*session.state(), selected);
    // An empty square that no action reaches: the selection is cleared.
    session.update(Key::Down);
    session.update(Key::Char(' '));
    assert_eq!(*session.state(), SessionState::NothingSelected);
    assert_eq!(session.game().history().len(), 0);
}

#[test]
fn q_quits_and_other_keys_change_nothing() {
    let mut session = Session::new();
    session.update(Key::Other);
    session.update(Key::Char('x'));
    assert_eq!(session, Session::new());
    session.update(Key::Char('q'));
    assert_eq!(*session.state(), SessionState::WillQuit);
    assert!(session.is_over());
    session.update(Key::Up);
    assert_eq!(session.cursor().to_coord(), coord("a2"));
    assert_eq!(*session.state(), SessionState::WillQuit);
}

#[test]
fn the_screen_shows_the_board_from_the_players_side() {
    let mut session = Session::new();
    // White sees row 8 on top: the top left corner is a8.
    assert!(matches_coordinate(&session, &coord("a8"), 0, 0));
    assert!(matches_coordinate(&session, &coord("h1"), 7, 7));
    assert!(!matches_coordinate(&session, &coord("a1"), 0, 0));
    assert!(is_under_cursor(&session, 7, 0));
    assert!(!is_under_cursor(&session, 0, 0));
    assert_eq!(shade_of(&session, 7, 0), Shade::UnderCursor);
    assert_eq!(shade_of(&session, 0, 0), Shade::Light);
    assert_eq!(shade_of(&session, 0, 1), Shade::Dark);
    assert_eq!(shade_of(&session, 1, 0), Shade::Dark);
    assert!(!is_chosen_square(&session, 6, 0));
    assert!(!is_possible_action(&session, 5, 0));

    session.update(Key::Up);
    session.update(Key::Char(' '));
    session.update(Key::Right);
    // a2 is selected, a3 and a4 are offered, the cursor is on b2.
    assert!(is_chosen_square(&session, 6, 0));
    assert!(!is_chosen_square(&session, 6, 1));
    assert!(is_possible_action(&session, 5, 0));
    assert!(is_possible_action(&session, 4, 0));
    assert!(!is_possible_action(&session, 3, 0));
    assert_eq!(shade_of(&session, 6, 0), Shade::Chosen);
    assert_eq!(shade_of(&session, 5, 0), Shade::PossibleAction);
    assert_eq!(shade_of(&session, 6, 1), Shade::UnderCursor);
    assert_eq!(shade_of(&session, 3, 0), Shade::Dark);

    let rows = row_iterator(&session);
    assert_eq!(rows.len(), 8);
    assert_eq!(rows[0], Board::default().data[7]);
    assert_eq!(rows[7], Board::default().data[0]);
    assert_eq!(rows[6][0], Some(Piece::pack(Side::White, Rank::Pawn)));
    let first = column_iterator(&session, &rows[7]);
    assert_eq!(first, Board::default().data[0].to_vec());
}

#[test]
fn every_piece_has_its_glyph() {
    assert_eq!(format_piece(&None), " ");
    assert_eq!(format_piece(&Some(Piece::pack(Side::White, Rank::Pawn))), "♙");
    assert_eq!(format_piece(&Some(Piece::pack(Side::White, Rank::Knight))), "♘");
    assert_eq!(format_piece(&Some(Piece::pack(Side::White, Rank::Bishop))), "♗");
    assert_eq!(format_piece(&Some(Piece::pack(Side::White, Rank::Rook))), "♖");
    assert_eq!(format_piece(&Some(Piece::pack(Side::White, Rank::Queen))), "♕");
    assert_eq!(format_piece(&Some(Piece::pack(Side::White, Rank::King))), "♔");
    assert_eq!(format_piece(&Some(Piece::pack(Side::Black, Rank::Pawn))), "♟");
    assert_eq!(format_piece(&Some(Piece::pack(Side::Black, Rank::Knight))), "♞");
    assert_eq!(format_piece(&Some(Piece::pack(Side::Black, Rank::Bishop))), "♝");
    assert_eq!(format_piece(&Some(Piece::pack(Side::Black, Rank::Rook))), "♜");
    assert_eq!(format_piece(&Some(Piece::pack(Side::Black, Rank::Queen))), "♛");
    assert_eq!(format_piece(&Some(Piece::pack(Side::Black, Rank::King))), "♚");
}

#[test]
fn the_automated_player_moves_for_the_side_to_move() {
    let mut session = Session::new();
    session.update(Key::Char('a'));
    assert_eq!(session.game().history().len(), 1);
    assert_eq!(session.game().current_turn(), Side::Black);
    assert_eq!(*session.state(), SessionState::NothingSelected);
}
