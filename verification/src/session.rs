//! A session of play: a game, the player's cursor and what the player has
//! selected, carried forward one key at a time.

use vstd::prelude::*;
use crate::Side;
use crate::action::Action;
use crate::ai;
use crate::ai::{is_last_best, lemma_legal_for_fits, owns_piece, side_legal};
use crate::board::{cell_index, Coordinate};
use crate::engine::{action_matches_coordinate, checkmated, has_king, lemma_legal_fits};
use crate::game::{offered, starting_position, supported, Game, GameView};
use crate::ui::{nudged, Cursor};

verus! {

/// What the player has selected.
#[derive(Clone, Debug, PartialEq)]
pub enum SessionState {
    NothingSelected,
    /// A square, and the actions offered for the piece on it.
    CoordinateSelected(Coordinate, Vec<Action>),
    WillQuit,
}

/// What the player has selected, as a mathematical value.
pub enum Selection {
    Nothing,
    Square(Coordinate, Seq<Action>),
    Quit,
}

/// The selection that `state` holds.
pub open spec fn selection_of(state: SessionState) -> Selection {
    match state {
        SessionState::NothingSelected => Selection::Nothing,
        SessionState::CoordinateSelected(square, actions) => Selection::Square(square, actions@),
        SessionState::WillQuit => Selection::Quit,
    }
}

/// A session of play.
#[derive(Debug, PartialEq)]
pub struct Session {
    current_game: Game,
    cursor: Cursor,
    player_as: Side,
    state: SessionState,
}

/// What a session reads of a key press.
#[derive(Clone, Copy, Debug, PartialEq, Eq)]
pub enum Key {
    Char(char),
    Up,
    Down,
    Left,
    Right,
    /// Any other key.
    Other,
}

/// A session as a mathematical value.
pub struct SessionView {
    pub game: GameView,
    pub cursor: Coordinate,
    pub cursor_side: Side,
    pub player_as: Side,
    pub selection: Selection,
}

/// A session at the start of a game: the player plays White, the cursor is
/// on the square of row 0 and column 0 and nothing is selected.
pub open spec fn starting_session() -> SessionView {
    SessionView {
        game: starting_position(),
        cursor: Coordinate { row: 0, column: 0 },
        cursor_side: Side::White,
        player_as: Side::White,
        selection: Selection::Nothing,
    }
}

/// The first of `actions` that is a move or a capture ending on `target`.
pub open spec fn first_onto(actions: Seq<Action>, target: Coordinate) -> Option<Action>
    decreases actions.len(),
{
    if actions.len() == 0 {
        None
    } else if actions[0].lands() && actions[0].target() == target {
        Some(actions[0])
    } else {
        first_onto(actions.drop_first(), target)
    }
}

/// Whether a piece of the side to move stands under the cursor.
pub open spec fn own_piece_under_cursor(session: SessionView) -> bool {
    session.game.cells[cell_index(session.cursor)] matches Some(piece) && piece.side_of()
        == session.game.next_to_move
}

/// The session with the square under the cursor selected, where a piece of
/// the side to move stands on it; the session itself otherwise.
pub open spec fn with_cursor_selected(session: SessionView) -> SessionView {
    if own_piece_under_cursor(session) {
        SessionView {
            selection: Selection::Square(session.cursor, offered(session.game, session.cursor)),
            ..session
        }
    } else {
        session
    }
}

/// The session once the player has pressed the space bar. With nothing
/// selected, the square under the cursor is selected where a piece of the
/// side to move stands on it. With a square selected: where one of the
/// actions offered ends under the cursor, the first such action is applied
/// and the selection cleared; else the selection is cleared where the cursor
/// is on the selected square or on an empty square, and the square under the
/// cursor is selected where a piece of the side to move stands on it.
pub open spec fn after_space(session: SessionView) -> SessionView {
    match session.selection {
        Selection::Nothing => with_cursor_selected(session),
        Selection::Square(square, actions) => match first_onto(actions, session.cursor) {
            Some(action) => SessionView {
                game: session.game.after(action),
                selection: Selection::Nothing,
                ..session
            },
            None => if square == session.cursor || session.game.cells[cell_index(
                session.cursor,
            )] is None {
                SessionView { selection: Selection::Nothing, ..session }
            } else {
                with_cursor_selected(session)
            },
        },
        Selection::Quit => session,
    }
}

/// Whether `after` is the session that follows `before` once the player has
/// pressed `key`: `q` quits; an arrow moves the cursor one square, as the
/// cursor's side sees the board, and nowhere at the edge; the space bar
/// selects and acts, see `after_space`; `a` applies the action that the
/// automated player picks for the side to move, unless that side is
/// checkmated; any other key changes nothing.
pub open spec fn follows(before: SessionView, key: Key, after: SessionView) -> bool {
    match key {
        Key::Char(c) => if c == 'q' {
            after == (SessionView { selection: Selection::Quit, ..before })
        } else if c == ' ' {
            after == after_space(before)
        } else if c == 'a' {
            if checkmated(before.game, before.game.next_to_move) {
                after == before
            } else {
                exists|action: Action|
                    is_last_best(
                        before.game,
                        side_legal(before.game, before.game.next_to_move),
                        action,
                    ) && after == (SessionView { game: before.game.after(action), ..before })
            }
        } else {
            after == before
        },
        Key::Up => after == (SessionView {
            cursor: nudged(before.cursor, before.cursor_side, 1, 0),
            ..before
        }),
        Key::Down => after == (SessionView {
            cursor: nudged(before.cursor, before.cursor_side, -1, 0),
            ..before
        }),
        Key::Right => after == (SessionView {
            cursor: nudged(before.cursor, before.cursor_side, 0, 1),
            ..before
        }),
        Key::Left => after == (SessionView {
            cursor: nudged(before.cursor, before.cursor_side, 0, -1),
            ..before
        }),
        Key::Other => after == before,
    }
}

impl View for Session {
    type V = SessionView;

    closed spec fn view(&self) -> SessionView {
        SessionView {
            game: self.current_game@,
            cursor: self.cursor.square(),
            cursor_side: self.cursor.side_of(),
            player_as: self.player_as,
            selection: selection_of(self.state),
        }
    }
}

/// Whether every action offered for the selected square is one that
/// `advance` applies. Every session that `new` and `update` build is such.
pub open spec fn offers_applicable(session: SessionView) -> bool {
    session.selection matches Selection::Square(_, actions) ==> forall|i: int|
        0 <= i < actions.len() ==> supported(#[trigger] actions[i])
}

/// What `first_onto` finds is one of the actions it was given.
pub proof fn lemma_first_onto(actions: Seq<Action>, target: Coordinate)
    ensures
        first_onto(actions, target) matches Some(action) ==> actions.contains(action),
    decreases actions.len(),
{
    if actions.len() > 0 && !(actions[0].lands() && actions[0].target() == target) {
        lemma_first_onto(actions.drop_first(), target);
        if first_onto(actions, target) is Some {
            let found = first_onto(actions, target)->0;
            let i = choose|i: int|
                0 <= i < actions.drop_first().len() && actions.drop_first()[i] == found;
            assert(actions[i + 1] == found);
        }
    }
}

/// The first of `actions` that is a move or a capture ending on `target`.
fn find_action_onto(actions: &Vec<Action>, target: &Coordinate) -> (found: Option<Action>)
    ensures
        found == first_onto(actions@, *target),
{
    let mut i: usize = 0;
    proof {
        assert(actions@.skip(0) =~= actions@);
    }
    while i < actions.len()
        invariant
            i <= actions.len(),
            first_onto(actions@, *target) == first_onto(actions@.skip(i as int), *target),
        decreases actions.len() - i,
    {
        proof {
            assert(actions@.skip(i as int).drop_first() =~= actions@.skip(i + 1));
        }
        if action_matches_coordinate(&actions[i], target) {
            return Some(actions[i]);
        }
        i = i + 1;
    }
    None
}

impl Session {
    /// A session at the start of a game: the player plays White, the cursor
    /// is on the square of row 0 and column 0 and nothing is selected.
    pub fn new() -> (session: Session)
        ensures
            session@ == starting_session(),
    {
        Session {
            current_game: Game::new(),
            cursor: Cursor::new(Side::White),
            player_as: Side::White,
            state: SessionState::NothingSelected,
        }
    }

    /// The game being played.
    pub fn game(&self) -> (game: &Game)
        ensures
            game@ == self@.game,
    {
        &self.current_game
    }

    /// The player's cursor.
    pub fn cursor(&self) -> (cursor: &Cursor)
        ensures
            cursor.square() == self@.cursor,
            cursor.side_of() == self@.cursor_side,
    {
        &self.cursor
    }

    /// The side that the player plays.
    pub fn player_as(&self) -> (side: Side)
        ensures
            side == self@.player_as,
    {
        self.player_as
    }

    /// What the player has selected.
    pub fn state(&self) -> (state: &SessionState)
        ensures
            selection_of(*state) == self@.selection,
    {
        &self.state
    }

    /// Whether the session is over: the player has quit, or the side to
    /// move, whose king must stand on the board, has no legal action.
    pub fn is_over(&mut self) -> (over: bool)
        requires
            has_king(old(self)@.game.cells, old(self)@.game.next_to_move),
        ensures
            final(self)@ == old(self)@,
            over == (old(self)@.selection is Quit || checkmated(
                old(self)@.game,
                old(self)@.game.next_to_move,
            )),
    {
        match self.state {
            SessionState::WillQuit => true,
            _ => self.current_game.has_completed(),
        }
    }

    /// Selects the square under the cursor where a piece of the side to move
    /// stands on it.
    fn select_under_cursor(&mut self)
        requires
            has_king(old(self)@.game.cells, old(self)@.game.next_to_move),
            offers_applicable(old(self)@),
        ensures
            final(self)@ == with_cursor_selected(old(self)@),
            offers_applicable(final(self)@),
    {
        let square = self.cursor.to_coord();
        proof {
            assert forall|k: int|
                0 <= k < offered(self@.game, square).len() implies supported(
                #[trigger] offered(self@.game, square)[k],
            ) by {
                lemma_legal_fits(self@.game, square, k);
            }
        }
        match *self.current_game.state().piece_at(square) {
            Some(piece) => {
                if piece.side() == self.current_game.state().next_to_move() {
                    let possible_actions = self.current_game.state_mut().actions_at(square);
                    self.state = SessionState::CoordinateSelected(square, possible_actions);
                }
            },
            None => {},
        }
    }

    /// Carries the session forward by one key press. For the space bar the
    /// king of the side to move must stand on the board and the player must
    /// not have quit; for `a` the king of the side to move must stand on the
    /// board where that side has a piece.
    pub fn update(&mut self, input: Key)
        requires
            offers_applicable(old(self)@),
            input == Key::Char(' ') ==> old(self)@.selection !is Quit && has_king(
                old(self)@.game.cells,
                old(self)@.game.next_to_move,
            ),
            input == Key::Char('a') ==> (owns_piece(
                old(self)@.game.cells,
                old(self)@.game.next_to_move,
            ) ==> has_king(old(self)@.game.cells, old(self)@.game.next_to_move)),
        ensures
            follows(old(self)@, input, final(self)@),
            offers_applicable(final(self)@),
    {
        match input {
            Key::Char(c) => {
                if c == 'q' {
                    self.state = SessionState::WillQuit;
                } else if c == ' ' {
                    let square = self.cursor.to_coord();
                    let chosen: Option<(Coordinate, Option<Action>)> = match &self.state {
                        SessionState::CoordinateSelected(coord, actions) => Some(
                            (*coord, find_action_onto(actions, &square)),
                        ),
                        _ => None,
                    };
                    match chosen {
                        None => {
                            self.select_under_cursor();
                        },
                        Some((_, Some(action))) => {
                            // We have found a move, lets invoke it
                            proof {
                                let offered = self@.selection->Square_1;
                                lemma_first_onto(offered, square);
                                let i = choose|i: int|
                                    0 <= i < offered.len() && offered[i] == action;
                                assert(supported(offered[i]));
                            }
                            self.current_game.advance(action).unwrap();
                            self.state = SessionState::NothingSelected;
                        },
                        Some((coord, None)) => {
                            if coord == square {
                                // We're on the same coordinate we selected before, clear selection
                                self.state = SessionState::NothingSelected;
                            } else if self.current_game.board().is_empty(square) {
                                // We've found an empty square, clear selection
                                self.state = SessionState::NothingSelected;
                            } else {
                                // We've found another piece, lets select it
                                self.select_under_cursor();
                            }
                        },
                    }
                } else if c == 'a' {
                    let ghost position = self@.game;
                    let picked = ai::make_move(self.current_game.state_mut());
                    match picked {
                        Some(action) => {
                            proof {
                                lemma_legal_for_fits(position, position.next_to_move, action);
                            }
                            self.current_game.advance(action).unwrap();
                        },
                        None => {},
                    }
                }
            },
            Key::Up => self.cursor.up(),
            Key::Down => self.cursor.down(),
            Key::Right => self.cursor.right(),
            Key::Left => self.cursor.left(),
            Key::Other => {},
        }
    }
}

} // verus!
