//! What the screen shows of a session: the cursor, the orientation of the
//! board and the shade and glyph of each square. Writing to the terminal is
//! left to the program.

use vstd::prelude::*;
use crate::Side;
use crate::action::Action;
use crate::board::Coordinate;
use crate::engine::aims_at;
use crate::engine::mover::hop;
use crate::piece::{Piece, Rank};
use crate::session::{Selection, Session, SessionState, SessionView};

verus! {

/// The square that the player's cursor marks. The cursor never leaves the
/// board.
#[derive(Debug, PartialEq)]
pub struct Cursor {
    row: usize,
    column: usize,
    side: Side,
}

/// The square `north` rows ahead and `east` columns to the right of
/// `square` as `side` sees the board, or `square` itself where that would
/// leave the board.
pub open spec fn nudged(square: Coordinate, side: Side, north: int, east: int) -> Coordinate {
    match hop(square, side, north, east) {
        Ok(reached) => reached,
        Err(_) => square,
    }
}

impl Cursor {
    #[verifier::type_invariant]
    spec fn on_board(self) -> bool {
        self.row <= 7 && self.column <= 7
    }

    /// The square that the cursor marks.
    pub closed spec fn square(self) -> Coordinate {
        Coordinate { row: self.row, column: self.column }
    }

    /// The side from which the cursor sees the board.
    pub closed spec fn side_of(self) -> Side {
        self.side
    }

    /// A cursor on the square of row 0 and column 0.
    pub fn new(side: Side) -> (cursor: Cursor)
        ensures
            cursor.square() == (Coordinate { row: 0, column: 0 }),
            cursor.side_of() == side,
    {
        Cursor { row: 0, column: 0, side: side }
    }

    /// The row of the square that the cursor marks.
    pub fn row(&self) -> (row: usize)
        ensures
            row == self.square().row,
            row <= 7,
    {
        proof {
            use_type_invariant(self);
        }
        self.row
    }

    /// The column of the square that the cursor marks.
    pub fn column(&self) -> (column: usize)
        ensures
            column == self.square().column,
            column <= 7,
    {
        proof {
            use_type_invariant(self);
        }
        self.column
    }

    /// One square north, as the cursor's side sees the board; nowhere at the
    /// edge.
    pub fn up(&mut self)
        ensures
            final(self).square() == nudged(old(self).square(), old(self).side_of(), 1, 0),
            final(self).side_of() == old(self).side_of(),
    {
        proof {
            use_type_invariant(&*self);
        }
        match self.side {
            Side::White => {
                if self.row < 7 {
                    self.row += 1
                }
            },
            Side::Black => {
                if self.row > 0 {
                    self.row -= 1
                }
            },
        }
    }

    /// One square south, as the cursor's side sees the board; nowhere at the
    /// edge.
    pub fn down(&mut self)
        ensures
            final(self).square() == nudged(old(self).square(), old(self).side_of(), -1, 0),
            final(self).side_of() == old(self).side_of(),
    {
        proof {
            use_type_invariant(&*self);
        }
        match self.side {
            Side::White => {
                if self.row > 0 {
                    self.row -= 1
                }
            },
            Side::Black => {
                if self.row < 7 {
                    self.row += 1
                }
            },
        }
    }

    /// One square east, as the cursor's side sees the board; nowhere at the
    /// edge.
    pub fn right(&mut self)
        ensures
            final(self).square() == nudged(old(self).square(), old(self).side_of(), 0, 1),
            final(self).side_of() == old(self).side_of(),
    {
        proof {
            use_type_invariant(&*self);
        }
        match self.side {
            Side::White => {
                if self.column < 7 {
                    self.column += 1
                }
            },
            Side::Black => {
                if self.column > 0 {
                    self.column -= 1
                }
            },
        }
    }

    /// One square west, as the cursor's side sees the board; nowhere at the
    /// edge.
    pub fn left(&mut self)
        ensures
            final(self).square() == nudged(old(self).square(), old(self).side_of(), 0, -1),
            final(self).side_of() == old(self).side_of(),
    {
        proof {
            use_type_invariant(&*self);
        }
        match self.side {
            Side::White => {
                if self.column > 0 {
                    self.column -= 1
                }
            },
            Side::Black => {
                if self.column < 7 {
                    self.column += 1
                }
            },
        }
    }

    /// The square that the cursor marks.
    pub fn to_coord(&self) -> (square: Coordinate)
        ensures
            square == self.square(),
            square.in_bounds(),
    {
        proof {
            use_type_invariant(self);
        }
        Coordinate::new(self.row, self.column)
    }
}

/// How a square is shaded on the screen.
#[derive(Clone, Copy, Debug, PartialEq, Eq, Structural)]
pub enum Shade {
    /// The cursor is on the square.
    UnderCursor,
    /// One of the actions offered ends on the square.
    PossibleAction,
    /// The square is the one selected.
    Chosen,
    /// A light square of the chequered board.
    Light,
    /// A dark square of the chequered board.
    Dark,
}

/// The square drawn on row `row_index` and column `col_index` of the
/// screen, counted from the top left: White sees row 7 on top, Black sees
/// row 0 on top and the columns mirrored.
pub open spec fn shown_at(player_as: Side, row_index: usize, col_index: usize) -> Coordinate {
    match player_as {
        Side::Black => Coordinate { row: row_index, column: (7 - col_index) as usize },
        Side::White => Coordinate { row: (7 - row_index) as usize, column: col_index },
    }
}

/// Whether one of the actions offered for the selected square ends on
/// `square`.
pub open spec fn offered_onto(selection: Selection, square: Coordinate) -> bool {
    selection matches Selection::Square(_, actions) && aims_at(actions, square)
}

/// How the square `square` of the screen position (`row_index`, `col_index`)
/// is shaded: the cursor goes before an offered action, that before the
/// selected square, that before the chequering.
pub open spec fn shade_at(session: SessionView, row_index: usize, col_index: usize) -> Shade {
    let square = shown_at(session.player_as, row_index, col_index);
    if session.cursor == square {
        Shade::UnderCursor
    } else if offered_onto(session.selection, square) {
        Shade::PossibleAction
    } else if session.selection matches Selection::Square(chosen, _) && chosen == square {
        Shade::Chosen
    } else if (col_index + row_index) % 2 == 0 {
        Shade::Light
    } else {
        Shade::Dark
    }
}

/// The glyph that shows what a cell holds: a chess figure, hollow for White
/// and solid for Black, or a blank.
pub open spec fn glyph(cell: Option<Piece>) -> Seq<char> {
    match cell {
        Some(piece) => match (piece.side_of(), piece.rank_of()) {
            (Side::White, Rank::Pawn) => seq!['♙'],
            (Side::White, Rank::Knight) => seq!['♘'],
            (Side::White, Rank::Bishop) => seq!['♗'],
            (Side::White, Rank::Rook) => seq!['♖'],
            (Side::White, Rank::Queen) => seq!['♕'],
            (Side::White, Rank::King) => seq!['♔'],
            (Side::Black, Rank::Pawn) => seq!['♟'],
            (Side::Black, Rank::Knight) => seq!['♞'],
            (Side::Black, Rank::Bishop) => seq!['♝'],
            (Side::Black, Rank::Rook) => seq!['♜'],
            (Side::Black, Rank::Queen) => seq!['♛'],
            (Side::Black, Rank::King) => seq!['♚'],
        },
        None => seq![' '],
    }
}

/// How the square at the given place of the screen is shaded.
pub fn shade_of(session: &Session, row_index: usize, col_index: usize) -> (shade: Shade)
    requires
        row_index <= 7,
        col_index <= 7,
    ensures
        shade == shade_at(session@, row_index, col_index),
{
    if is_under_cursor(session, row_index, col_index) {
        Shade::UnderCursor
    } else if is_possible_action(session, row_index, col_index) {
        Shade::PossibleAction
    } else if is_chosen_square(session, row_index, col_index) {
        Shade::Chosen
    } else if (col_index + row_index) % 2 == 0 {
        Shade::Light
    } else {
        Shade::Dark
    }
}

/// Whether the cursor is on the square drawn at the given place of the
/// screen.
pub fn is_under_cursor(session: &Session, row_index: usize, col_index: usize) -> (under: bool)
    requires
        row_index <= 7,
        col_index <= 7,
    ensures
        under == (session@.cursor == shown_at(session@.player_as, row_index, col_index)),
{
    matches_coordinate(session, &session.cursor().to_coord(), row_index, col_index)
}

/// Whether one of the actions offered ends on the square drawn at the given
/// place of the screen.
pub fn is_possible_action(session: &Session, row_index: usize, col_index: usize) -> (possible: bool)
    requires
        row_index <= 7,
        col_index <= 7,
    ensures
        possible == offered_onto(
            session@.selection,
            shown_at(session@.player_as, row_index, col_index),
        ),
{
    match session.state() {
        SessionState::CoordinateSelected(_, actions) => {
            let ghost square = shown_at(session@.player_as, row_index, col_index);
            let mut i: usize = 0;
            while i < actions.len()
                invariant
                    i <= actions.len(),
                    row_index <= 7,
                    col_index <= 7,
                    square == shown_at(session@.player_as, row_index, col_index),
                    session@.selection matches Selection::Square(_, offered) && offered
                        == actions@,
                    forall|k: int|
                        0 <= k < i ==> !((#[trigger] actions@[k]).lands() && actions@[k].target()
                            == square),
                decreases actions.len() - i,
            {
                let onto = match actions[i] {
                    Action::MovePiece(_, _, to) => matches_coordinate(
                        session,
                        &to,
                        row_index,
                        col_index,
                    ),
                    Action::Capture(_, _, _, to) => matches_coordinate(
                        session,
                        &to,
                        row_index,
                        col_index,
                    ),
                    _ => false,
                };
                if onto {
                    return true;
                }
                i = i + 1;
            }
            false
        },
        _ => false,
    }
}

/// Whether the selected square is the one drawn at the given place of the
/// screen.
pub fn is_chosen_square(session: &Session, row_index: usize, col_index: usize) -> (chosen: bool)
    requires
        row_index <= 7,
        col_index <= 7,
    ensures
        chosen == (session@.selection matches Selection::Square(square, _) && square == shown_at(
            session@.player_as,
            row_index,
            col_index,
        )),
{
    match session.state() {
        SessionState::CoordinateSelected(coord, _) => matches_coordinate(
            session,
            coord,
            row_index,
            col_index,
        ),
        _ => false,
    }
}

/// Whether `coord` is the square drawn at the given place of the screen.
pub fn matches_coordinate(
    session: &Session,
    coord: &Coordinate,
    row_index: usize,
    col_index: usize,
) -> (same: bool)
    requires
        row_index <= 7,
        col_index <= 7,
    ensures
        same == (*coord == shown_at(session@.player_as, row_index, col_index)),
{
    match session.player_as() {
        Side::Black => coord.row() == row_index && coord.column() == 7 - col_index,
        Side::White => coord.row() == 7 - row_index && coord.column() == col_index,
    }
}

/// The glyph that shows what a cell holds.
pub fn format_piece(piece: &Option<Piece>) -> (text: &'static str)
    ensures
        text@ == glyph(*piece),
{
    match *piece {
        Some(p) => match (p.side(), p.rank()) {
            (Side::White, Rank::Pawn) => {
                proof { reveal_strlit("♙"); }
                "♙"
            },
            (Side::White, Rank::Knight) => {
                proof { reveal_strlit("♘"); }
                "♘"
            },
            (Side::White, Rank::Bishop) => {
                proof { reveal_strlit("♗"); }
                "♗"
            },
            (Side::White, Rank::Rook) => {
                proof { reveal_strlit("♖"); }
                "♖"
            },
            (Side::White, Rank::Queen) => {
                proof { reveal_strlit("♕"); }
                "♕"
            },
            (Side::White, Rank::King) => {
                proof { reveal_strlit("♔"); }
                "♔"
            },
            (Side::Black, Rank::Pawn) => {
                proof { reveal_strlit("♟"); }
                "♟"
            },
            (Side::Black, Rank::Knight) => {
                proof { reveal_strlit("♞"); }
                "♞"
            },
            (Side::Black, Rank::Bishop) => {
                proof { reveal_strlit("♝"); }
                "♝"
            },
            (Side::Black, Rank::Rook) => {
                proof { reveal_strlit("♜"); }
                "♜"
            },
            (Side::Black, Rank::Queen) => {
                proof { reveal_strlit("♛"); }
                "♛"
            },
            (Side::Black, Rank::King) => {
                proof { reveal_strlit("♚"); }
                "♚"
            },
        },
        None => {
            proof { reveal_strlit(" "); }
            " "
        },
    }
}

/// The rows of the board from the top of the screen down: row 7 first for
/// White, row 0 first for Black.
pub fn row_iterator(session: &Session) -> (rows: Vec<[Option<Piece>; 8]>)
    ensures
        rows@.len() == 8,
        forall|i: int|
            0 <= i < 8 ==> #[trigger] rows@[i]@ == Seq::new(
                8,
                |j: int|
                    session@.game.cells[match session@.player_as {
                        Side::White => 8 * (7 - i) + j,
                        Side::Black => 8 * i + j,
                    }],
            ),
{
    let board = session.game().board();
    let player_as = session.player_as();
    let mut rows: Vec<[Option<Piece>; 8]> = Vec::new();
    let mut i: usize = 0;
    while i < 8
        invariant
            i <= 8,
            rows@.len() == i,
            player_as == session@.player_as,
            board@ == session@.game.cells,
            forall|k: int|
                0 <= k < i ==> #[trigger] rows@[k]@ == Seq::new(
                    8,
                    |j: int|
                        session@.game.cells[match session@.player_as {
                            Side::White => 8 * (7 - k) + j,
                            Side::Black => 8 * k + j,
                        }],
                ),
        decreases 8 - i,
    {
        let row = match player_as {
            Side::White => board.data[7 - i],
            Side::Black => board.data[i],
        };
        proof {
            assert(row@ =~= Seq::new(
                8,
                |j: int|
                    session@.game.cells[match session@.player_as {
                        Side::White => 8 * (7 - i) + j,
                        Side::Black => 8 * i + j,
                    }],
            ));
        }
        rows.push(row);
        i = i + 1;
    }
    rows
}

/// The cells of `row` from the left of the screen to the right: column 0
/// first for White, column 7 first for Black.
pub fn column_iterator(session: &Session, row: &[Option<Piece>; 8]) -> (cells: Vec<Option<Piece>>)
    ensures
        cells@ == (match session@.player_as {
            Side::White => row@,
            Side::Black => row@.reverse(),
        }),
{
    let player_as = session.player_as();
    let mut cells: Vec<Option<Piece>> = Vec::new();
    let mut i: usize = 0;
    while i < 8
        invariant
            i <= 8,
            cells@.len() == i,
            player_as == session@.player_as,
            forall|k: int|
                0 <= k < i ==> #[trigger] cells@[k] == (match player_as {
                    Side::White => row@[k],
                    Side::Black => row@[7 - k],
                }),
        decreases 8 - i,
    {
        let cell = match player_as {
            Side::White => row[i],
            Side::Black => row[7 - i],
        };
        cells.push(cell);
        i = i + 1;
    }
    cells
}

} // verus!
