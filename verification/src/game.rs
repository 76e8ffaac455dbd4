//! The position of a game, and how actions change it and are taken back.

use core::ops::Not;
use vstd::prelude::*;
use crate::Side;
use crate::action::Action;
use crate::board::{cell_index, put, starting_cells, Board, Coordinate};
use crate::engine;
use crate::engine::{checkmated, has_king, legal, lemma_legal_fits};
use crate::error::Error;
use crate::piece::Piece;

verus! {

/// The mutable position: the board, the side to move, the actions applied so
/// far and the pieces taken so far.
#[derive(Clone, Debug, PartialEq)]
pub struct GameState {
    next_to_move: Side,
    history: Vec<Action>,
    board: Board,
    captured: Vec<Piece>,
}

/// A position as a mathematical value.
pub struct GameView {
    pub next_to_move: Side,
    pub history: Seq<Action>,
    pub cells: Seq<Option<Piece>>,
    pub captured: Seq<Piece>,
}

/// The position at the start of a game: the starting board, White to move,
/// nothing played and nothing taken.
pub open spec fn starting_position() -> GameView {
    GameView {
        next_to_move: Side::White,
        history: Seq::empty(),
        cells: starting_cells(),
        captured: Seq::empty(),
    }
}

/// Whether `advance` applies the action: it is a move or a capture between
/// two squares of the board.
pub open spec fn supported(action: Action) -> bool {
    action.lands() && action.origin().in_bounds() && action.target().in_bounds()
}

/// The error with which `advance` refuses an action that it does not apply.
pub open spec fn refusal(action: Action) -> Error {
    if action.lands() {
        Error::InvalidCoordinate
    } else {
        Error::Unsupported
    }
}

/// Whether the action fits the cells: it moves the piece that stands on its
/// origin, onto an empty square for a move, onto a piece of the other side,
/// which it names, for a capture.
pub open spec fn fits(cells: Seq<Option<Piece>>, action: Action) -> bool {
    match action {
        Action::MovePiece(piece, from, to) => {
            &&& from.in_bounds()
            &&& to.in_bounds()
            &&& cells[cell_index(from)] == Some(piece)
            &&& cells[cell_index(to)] is None
        },
        Action::Capture(piece, taken, from, to) => {
            &&& from.in_bounds()
            &&& to.in_bounds()
            &&& cells[cell_index(from)] == Some(piece)
            &&& cells[cell_index(to)] == Some(taken)
            &&& taken.side_of() != piece.side_of()
        },
        _ => false,
    }
}

impl GameView {
    /// The position once `action` is applied; the position itself where
    /// `advance` refuses the action.
    pub open spec fn after(self, action: Action) -> GameView {
        if !supported(action) {
            self
        } else {
            match action {
                Action::MovePiece(piece, from, to) => GameView {
                    next_to_move: self.next_to_move.opponent(),
                    history: self.history.push(action),
                    cells: put(put(self.cells, to, Some(piece)), from, None),
                    captured: self.captured,
                },
                Action::Capture(piece, taken, from, to) => GameView {
                    next_to_move: self.next_to_move.opponent(),
                    history: self.history.push(action),
                    cells: put(put(self.cells, to, Some(piece)), from, None),
                    captured: self.captured.push(taken),
                },
                _ => self,
            }
        }
    }

    /// Whether the last action of the history can be taken back: the history
    /// is empty, or its last action is one that `advance` applies. `advance`
    /// records no other action.
    pub open spec fn can_step_back(self) -> bool {
        self.history.len() > 0 ==> supported(self.history.last())
    }

    /// The position once the last action of the history, a move or a
    /// capture, is taken back; the position itself where the history is
    /// empty.
    pub open spec fn before(self) -> GameView {
        if self.history.len() == 0 {
            self
        } else {
            match self.history.last() {
                Action::MovePiece(piece, from, to) => GameView {
                    next_to_move: self.next_to_move.opponent(),
                    history: self.history.drop_last(),
                    cells: put(put(self.cells, from, Some(piece)), to, None),
                    captured: self.captured,
                },
                Action::Capture(piece, taken, from, to) => GameView {
                    next_to_move: self.next_to_move.opponent(),
                    history: self.history.drop_last(),
                    cells: put(put(self.cells, from, Some(piece)), to, Some(taken)),
                    captured: if self.captured.len() > 0 {
                        self.captured.drop_last()
                    } else {
                        self.captured
                    },
                },
                _ => self,
            }
        }
    }
}

/// The actions offered for the square `c`: the legal actions of the piece on
/// it where that piece belongs to the side to move, none otherwise.
pub open spec fn offered(position: GameView, c: Coordinate) -> Seq<Action> {
    match position.cells[cell_index(c)] {
        Some(piece) => if piece.side_of() == position.next_to_move {
            legal(position, c)
        } else {
            Seq::empty()
        },
        None => Seq::empty(),
    }
}

/// Taking back an action that fits the board restores the position exactly:
/// the cells, the side to move, the history and the pieces taken.
pub proof fn lemma_undo_restores(position: GameView, action: Action)
    requires
        position.cells.len() == 64,
        fits(position.cells, action),
    ensures
        position.after(action).before() == position,
{
    let next = position.after(action);
    assert(next.history.drop_last() =~= position.history);
    assert(next.before().cells =~= position.cells);
    assert(next.before().captured =~= position.captured);
}

impl View for GameState {
    type V = GameView;

    closed spec fn view(&self) -> GameView {
        GameView {
            next_to_move: self.next_to_move,
            history: self.history@,
            cells: self.board@,
            captured: self.captured@,
        }
    }
}

impl GameState {
    /// A position has 64 cells.
    pub proof fn lemma_cells(&self)
        ensures
            self@.cells.len() == 64,
    {
    }

    /// The position at the start of a game: the starting board, White to move.
    pub fn new() -> (state: GameState)
        ensures
            state@ == starting_position(),
    {
        GameState {
            next_to_move: Side::White,
            history: Vec::new(),
            board: Board::default(),
            captured: Vec::new(),
        }
    }

    /// A position on the given board, White to move, nothing played yet.
    pub fn with_board(board: Board) -> (state: GameState)
        ensures
            state@ == (GameView {
                next_to_move: Side::White,
                history: Seq::empty(),
                cells: board@,
                captured: Seq::empty(),
            }),
    {
        GameState { next_to_move: Side::White, history: Vec::new(), board: board, captured: Vec::new() }
    }

    /// The actions applied so far, oldest first.
    pub fn history(&self) -> (history: &Vec<Action>)
        ensures
            history@ == self@.history,
    {
        &self.history
    }

    /// The pieces taken so far, oldest first.
    pub fn captured(&self) -> (captured: &Vec<Piece>)
        ensures
            captured@ == self@.captured,
    {
        &self.captured
    }

    /// The side to move.
    pub fn next_to_move(&self) -> (side: Side)
        ensures
            side == self@.next_to_move,
    {
        self.next_to_move
    }

    /// The board.
    pub fn board(&self) -> (board: &Board)
        ensures
            board@ == self@.cells,
    {
        &self.board
    }

    /// What the cell at `coord` holds.
    pub fn piece_at(&self, coord: Coordinate) -> (cell: &Option<Piece>)
        requires
            coord.in_bounds(),
        ensures
            *cell == self@.cells[cell_index(coord)],
    {
        self.board.piece_at(coord)
    }

    /// The legal actions of the piece on `coordinate`; none where the square
    /// is empty or the piece belongs to the side that is not to move. The
    /// position is left as it was.
    pub fn actions_at(&mut self, coordinate: Coordinate) -> (actions: Vec<Action>)
        requires
            coordinate.in_bounds(),
            has_king(old(self)@.cells, old(self)@.next_to_move),
        ensures
            final(self)@ == old(self)@,
            actions@ == offered(old(self)@, coordinate),
    {
        match *self.piece_at(coordinate) {
            Some(piece) => {
                if piece.side() == self.next_to_move {
                    engine::possible_actions(&coordinate, self)
                } else {
                    Vec::new()
                }
            },
            None => Vec::new(),
        }
    }

    /// Whether the side to move has no legal action. The position is left
    /// as it was.
    pub fn has_completed(&mut self) -> (completed: bool)
        requires
            has_king(old(self)@.cells, old(self)@.next_to_move),
        ensures
            final(self)@ == old(self)@,
            completed == checkmated(old(self)@, old(self)@.next_to_move),
    {
        let side = self.next_to_move();
        engine::is_in_checkmate(self, side)
    }

    /// The same position with the other side to move.
    pub fn peek_into_the_future(&self) -> (state: GameState)
        ensures
            state@ == (GameView { next_to_move: self@.next_to_move.opponent(), ..self@ }),
    {
        let history = self.history.clone();
        let captured = self.captured.clone();
        GameState {
            next_to_move: self.next_to_move.not(),
            history: history,
            board: self.board,
            captured: captured,
        }
    }

    /// Applies a move or a capture: the mover goes to the target square, its
    /// origin is cleared, a taken piece is recorded, the action is appended
    /// to the history and the turn passes. Any other action, and one that
    /// names a square off the board, is refused and changes nothing.
    pub fn advance(&mut self, action: Action) -> (res: Result<(), Error>)
        ensures
            final(self)@ == old(self)@.after(action),
            supported(action) ==> res == Ok::<(), Error>(()),
            !supported(action) ==> res == Err::<(), Error>(refusal(action)),
    {
        match action {
            Action::MovePiece(piece, from, to) => {
                if from.check().is_err() || to.check().is_err() {
                    return Err(Error::InvalidCoordinate);
                }
                self.update_board(&to, Some(piece)).unwrap();
                self.update_board(&from, None).unwrap();
                self.add_action_to_history(action);
                self.toggle_side();
                Ok(())
            },
            Action::Capture(capturer, target, from, to) => {
                if from.check().is_err() || to.check().is_err() {
                    return Err(Error::InvalidCoordinate);
                }
                self.update_board(&to, Some(capturer)).unwrap();
                self.update_board(&from, None).unwrap();
                self.captured.push(target);
                self.add_action_to_history(action);
                self.toggle_side();
                Ok(())
            },
            _ => Err(Error::Unsupported),
        }
    }

    /// Takes back the last action of the history, which must be a move or a
    /// capture between squares of the board, as every action is that
    /// `advance` has recorded; does nothing where the history is empty.
    pub fn undo(&mut self) -> (res: Result<(), Error>)
        requires
            old(self)@.can_step_back(),
        ensures
            final(self)@ == old(self)@.before(),
            res == Ok::<(), Error>(()),
    {
        let last_action = self.history.pop();
        match last_action {
            Some(Action::MovePiece(piece, from, to)) => {
                self.update_board(&from, Some(piece)).unwrap();
                self.update_board(&to, None).unwrap();
                self.toggle_side();
            },
            Some(Action::Capture(capturer, target, from, to)) => {
                self.update_board(&from, Some(capturer)).unwrap();
                self.update_board(&to, Some(target)).unwrap();
                let _ = self.captured.pop();
                self.toggle_side();
            },
            Some(_) => unreached(),
            None => {},
        }
        Ok(())
    }

    /// Applies `action`, calls `evaluation_fn` on the position reached, takes
    /// the action back and returns what the call returned. Where `advance`
    /// refuses the action, the call sees the position as it is and nothing
    /// is taken back.
    pub fn evaluate_with_action<F, T>(&mut self, action: Action, evaluation_fn: F) -> (result: T) where
        F: Fn(&GameState) -> T,

        requires
            forall|reached: GameState|
                reached@ == old(self)@.after(action) ==> evaluation_fn.requires((&reached,)),
        ensures
            supported(action) ==> final(self)@ == old(self)@.after(action).before(),
            !supported(action) ==> final(self)@ == old(self)@,
            exists|reached: GameState|
                reached@ == old(self)@.after(action) && evaluation_fn.ensures((&reached,), result),
    {
        let applied = self.advance(action).is_ok();
        let evaluation_result = evaluation_fn(&*self);
        if applied {
            self.undo().unwrap();
        }
        evaluation_result
    }

    /// Replaces the board and keeps the rest.
    pub fn set_board(&mut self, board: Board)
        ensures
            final(self)@ == (GameView { cells: board@, ..old(self)@ }),
    {
        self.board = board;
    }

    /// Overwrites one cell of the board and keeps the rest.
    pub fn update_board(&mut self, coordinate: &Coordinate, piece: Option<Piece>) -> (res: Result<
        (),
        Error,
    >)
        ensures
            final(self)@ == (GameView {
                cells: put(old(self)@.cells, *coordinate, piece),
                ..old(self)@
            }),
            coordinate.in_bounds() ==> res == Ok::<(), Error>(()),
            !coordinate.in_bounds() ==> res == Err::<(), Error>(Error::InvalidCoordinate),
    {
        self.board.update(coordinate, piece)
    }

    fn toggle_side(&mut self)
        ensures
            final(self)@ == (GameView {
                next_to_move: old(self)@.next_to_move.opponent(),
                ..old(self)@
            }),
    {
        match self.next_to_move {
            Side::White => self.next_to_move = Side::Black,
            Side::Black => self.next_to_move = Side::White,
        }
    }

    fn add_action_to_history(&mut self, action: Action)
        ensures
            final(self)@ == (GameView { history: old(self)@.history.push(action), ..old(self)@ }),
    {
        self.history.push(action);
    }
}

/// The position once each of `actions` is applied in turn.
pub open spec fn after_all(position: GameView, actions: Seq<Action>) -> GameView
    decreases actions.len(),
{
    if actions.len() == 0 {
        position
    } else {
        after_all(position, actions.drop_last()).after(actions.last())
    }
}

/// The turn alternates: once `actions` are applied, all of which `advance`
/// applies, the history has grown by them, and the side to move is the one
/// that was to move where their number is even, the other side where it is
/// odd.
pub proof fn lemma_turn_alternates(position: GameView, actions: Seq<Action>)
    requires
        forall|i: int| 0 <= i < actions.len() ==> supported(#[trigger] actions[i]),
    ensures
        after_all(position, actions).history == position.history + actions,
        after_all(position, actions).next_to_move == (if actions.len() % 2 == 0 {
            position.next_to_move
        } else {
            position.next_to_move.opponent()
        }),
    decreases actions.len(),
{
    if actions.len() > 0 {
        lemma_turn_alternates(position, actions.drop_last());
        assert(position.history + actions =~= (position.history + actions.drop_last()).push(
            actions.last(),
        ));
    }
}

/// Taking back a legal action restores the position exactly: the cells, the
/// side to move, the history and the pieces taken. Every legal action is a
/// move or a capture.
pub proof fn lemma_legal_action_round_trip(position: GameView, from: Coordinate, action: Action)
    requires
        position.cells.len() == 64,
        from.in_bounds(),
        legal(position, from).contains(action),
    ensures
        action is MovePiece || action is Capture,
        position.after(action).can_step_back(),
        position.after(action).before() == position,
{
    let k = choose|k: int| 0 <= k < legal(position, from).len() && legal(position, from)[k] == action;
    lemma_legal_fits(position, from, k);
    lemma_undo_restores(position, action);
}

/// A game: one position that actions carry forward.
#[derive(Debug, PartialEq)]
pub struct Game {
    current_state: GameState,
}

impl View for Game {
    type V = GameView;

    closed spec fn view(&self) -> GameView {
        self.current_state@
    }
}

impl Game {
    /// A game at its start.
    pub fn new() -> (game: Game)
        ensures
            game@ == starting_position(),
    {
        Game { current_state: GameState::new() }
    }

    /// The side to move.
    pub fn current_turn(&self) -> (side: Side)
        ensures
            side == self@.next_to_move,
    {
        self.current_state.next_to_move()
    }

    /// The actions applied so far, oldest first.
    pub fn history(&self) -> (history: &Vec<Action>)
        ensures
            history@ == self@.history,
    {
        self.current_state.history()
    }

    /// The board.
    pub fn board(&self) -> (board: &Board)
        ensures
            board@ == self@.cells,
    {
        self.current_state.board()
    }

    /// The position of the game.
    pub fn state(&self) -> (state: &GameState)
        ensures
            state@ == self@,
    {
        &self.current_state
    }

    /// The position of the game, to be changed in place.
    pub fn state_mut(&mut self) -> (state: &mut GameState)
        ensures
            state@ == old(self)@,
            final(self)@ == final(state)@,
    {
        &mut self.current_state
    }

    /// Applies a move or a capture and refuses any other action, as
    /// `GameState::advance` does.
    pub fn advance(&mut self, action: Action) -> (res: Result<(), Error>)
        ensures
            final(self)@ == old(self)@.after(action),
            supported(action) ==> res == Ok::<(), Error>(()),
            !supported(action) ==> res == Err::<(), Error>(refusal(action)),
    {
        self.current_state.advance(action)
    }

    /// Whether the side to move has no legal action.
    pub fn has_completed(&mut self) -> (completed: bool)
        requires
            has_king(old(self)@.cells, old(self)@.next_to_move),
        ensures
            final(self)@ == old(self)@,
            completed == checkmated(old(self)@, old(self)@.next_to_move),
    {
        self.current_state.has_completed()
    }
}

} // verus!
