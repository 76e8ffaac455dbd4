//! The actions a player may take.

use vstd::prelude::*;
use crate::board::Coordinate;
use crate::piece::Piece;

verus! {

/// The side of the board towards which a king castles.
#[derive(Clone, Copy, Debug, PartialEq, Eq, Structural)]
pub enum CastleSide {
    QueenSide,
    KingSide,
}

/// A transition from one position to the next. An action only describes the
/// transition; it does not check itself against a board.
#[derive(Clone, Copy, Debug, PartialEq, Eq, Structural)]
pub enum Action {
    /// The piece goes from the first square to the second, which is empty.
    MovePiece(Piece, Coordinate, Coordinate),
    /// The first piece goes from the first square to the second and takes
    /// the second piece, which stood there.
    Capture(Piece, Piece, Coordinate, Coordinate),
    /// Declared for completeness; no function of the library produces or
    /// applies it.
    Promotion(Piece, Piece, Coordinate, Coordinate),
    /// The king castles towards the given side of the board.
    Castle(CastleSide),
}

impl Action {
    /// Whether the action moves one piece onto a square: a move or a capture.
    pub open spec fn lands(self) -> bool {
        self is MovePiece || self is Capture
    }

    /// The square a move or a capture starts from.
    pub open spec fn origin(self) -> Coordinate
        recommends
            self.lands(),
    {
        match self {
            Action::MovePiece(_, from, _) => from,
            Action::Capture(_, _, from, _) => from,
            _ => arbitrary(),
        }
    }

    /// The square a move or a capture ends on.
    pub open spec fn target(self) -> Coordinate
        recommends
            self.lands(),
    {
        match self {
            Action::MovePiece(_, _, to) => to,
            Action::Capture(_, _, _, to) => to,
            _ => arbitrary(),
        }
    }

    /// The piece that a move or a capture moves.
    pub open spec fn mover(self) -> Piece
        recommends
            self.lands(),
    {
        match self {
            Action::MovePiece(piece, _, _) => piece,
            Action::Capture(piece, _, _, _) => piece,
            _ => arbitrary(),
        }
    }
}

/// The square on which a move or a capture ends.
pub fn to_coordinate_for(action: &Action) -> (to: &Coordinate)
    requires
        action.lands(),
    ensures
        *to == action.target(),
{
    match action {
        Action::MovePiece(_, _, to) => to,
        Action::Capture(_, _, _, to) => to,
        _ => unreached(),
    }
}

} // verus!
