//! Steps on the board, relative to the side that takes them.

use vstd::prelude::*;
use crate::Side;
use crate::board::Coordinate;
use crate::error::Error;

verus! {

/// `steps` as `side` counts them: White counts rows and columns upwards,
/// Black counts them downwards, so that each side's north is the other's
/// south and each side's east is the other's west.
pub open spec fn toward(side: Side, steps: int) -> int {
    match side {
        Side::White => steps,
        Side::Black => -steps,
    }
}

/// The square at the given row and column, or `OutOfBounds` where they leave
/// the board.
pub open spec fn landing(row: int, column: int) -> Result<Coordinate, Error> {
    if 0 <= row <= 7 && 0 <= column <= 7 {
        Ok(Coordinate { row: row as usize, column: column as usize })
    } else {
        Err(Error::OutOfBounds)
    }
}

/// The square `north` steps to the north and `east` steps to the east of
/// `from`, as `side` sees the board.
pub open spec fn hop(from: Coordinate, side: Side, north: int, east: int) -> Result<
    Coordinate,
    Error,
> {
    landing(from.row + toward(side, north), from.column + toward(side, east))
}

/// One of the eight directions in which a piece may step.
#[derive(Clone, Copy, Debug, PartialEq, Eq, Structural)]
pub enum Direction {
    North,
    NorthEast,
    East,
    SouthEast,
    South,
    SouthWest,
    West,
    NorthWest,
}

impl Direction {
    /// How many rows to the north one step in this direction goes.
    pub open spec fn north(self) -> int {
        match self {
            Direction::North | Direction::NorthEast | Direction::NorthWest => 1,
            Direction::South | Direction::SouthEast | Direction::SouthWest => -1,
            _ => 0,
        }
    }

    /// How many columns to the east one step in this direction goes.
    pub open spec fn east(self) -> int {
        match self {
            Direction::East | Direction::NorthEast | Direction::SouthEast => 1,
            Direction::West | Direction::NorthWest | Direction::SouthWest => -1,
            _ => 0,
        }
    }

    /// Moves `mover` one step in this direction.
    pub fn drive(self, mover: Mover) -> (moved: Mover)
        requires
            i8::MIN < mover.current_row < i8::MAX,
            i8::MIN < mover.current_column < i8::MAX,
        ensures
            moved.side == mover.side,
            moved.current_row == mover.current_row + toward(mover.side, self.north()),
            moved.current_column == mover.current_column + toward(mover.side, self.east()),
    {
        match self {
            Direction::North => mover.north(),
            Direction::NorthEast => mover.north().east(),
            Direction::East => mover.east(),
            Direction::SouthEast => mover.south().east(),
            Direction::South => mover.south(),
            Direction::SouthWest => mover.south().west(),
            Direction::West => mover.west(),
            Direction::NorthWest => mover.north().west(),
        }
    }
}

/// The square one step from `from` in `direction`, as `side` sees the board.
pub open spec fn step(from: Coordinate, side: Side, direction: Direction) -> Result<
    Coordinate,
    Error,
> {
    hop(from, side, direction.north(), direction.east())
}

/// Walks the board by relative steps. A mover never looks at what the board
/// holds.
#[derive(Clone, Copy, Debug, PartialEq, Eq)]
pub struct Mover {
    pub side: Side,
    pub current_row: i8,
    pub current_column: i8,
}

impl Mover {
    /// A mover of `side` on the square of row 0 and column 0.
    pub fn new(side: Side) -> (mover: Mover)
        ensures
            mover == (Mover { side, current_row: 0, current_column: 0 }),
    {
        Mover { side: side, current_row: 0, current_column: 0 }
    }

    /// One row towards the other side's back row.
    pub fn north(self) -> (moved: Mover)
        requires
            i8::MIN < self.current_row < i8::MAX,
        ensures
            moved.side == self.side,
            moved.current_row == self.current_row + toward(self.side, 1),
            moved.current_column == self.current_column,
    {
        match self.side {
            Side::White => Mover { current_row: self.current_row + 1, ..self },
            Side::Black => Mover { current_row: self.current_row - 1, ..self },
        }
    }

    /// One row towards the mover's own back row.
    pub fn south(self) -> (moved: Mover)
        requires
            i8::MIN < self.current_row < i8::MAX,
        ensures
            moved.side == self.side,
            moved.current_row == self.current_row + toward(self.side, -1),
            moved.current_column == self.current_column,
    {
        match self.side {
            Side::White => Mover { current_row: self.current_row - 1, ..self },
            Side::Black => Mover { current_row: self.current_row + 1, ..self },
        }
    }

    /// One column to the left, as the mover's side sees the board.
    pub fn west(self) -> (moved: Mover)
        requires
            i8::MIN < self.current_column < i8::MAX,
        ensures
            moved.side == self.side,
            moved.current_row == self.current_row,
            moved.current_column == self.current_column + toward(self.side, -1),
    {
        match self.side {
            Side::White => Mover { current_column: self.current_column - 1, ..self },
            Side::Black => Mover { current_column: self.current_column + 1, ..self },
        }
    }

    /// One column to the right, as the mover's side sees the board.
    pub fn east(self) -> (moved: Mover)
        requires
            i8::MIN < self.current_column < i8::MAX,
        ensures
            moved.side == self.side,
            moved.current_row == self.current_row,
            moved.current_column == self.current_column + toward(self.side, 1),
    {
        match self.side {
            Side::White => Mover { current_column: self.current_column + 1, ..self },
            Side::Black => Mover { current_column: self.current_column - 1, ..self },
        }
    }

    /// Places the mover on `coordinate`.
    pub fn move_to(self, coordinate: &Coordinate) -> (moved: Mover)
        requires
            coordinate.row <= i8::MAX,
            coordinate.column <= i8::MAX,
        ensures
            moved.side == self.side,
            moved.current_row == coordinate.row,
            moved.current_column == coordinate.column,
    {
        Mover {
            side: self.side,
            current_row: coordinate.row() as i8,
            current_column: coordinate.column() as i8,
        }
    }

    /// The square the mover stands on, if it is on the board.
    pub fn make(self) -> (res: Result<Coordinate, Error>)
        ensures
            res == landing(self.current_row as int, self.current_column as int),
    {
        if 0 <= self.current_row && self.current_row <= 7 && 0 <= self.current_column
            && self.current_column <= 7 {
            Ok(Coordinate::new(self.current_row as usize, self.current_column as usize))
        } else {
            Err(Error::OutOfBounds)
        }
    }
}

} // verus!
