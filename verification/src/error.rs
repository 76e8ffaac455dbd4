//! The errors that the library reports to its callers.

use vstd::prelude::*;

verus! {

/// Why an operation was refused.
#[derive(Clone, Copy, Debug, PartialEq, Eq, Structural)]
pub enum Error {
    /// A coordinate lies outside the eight rows or the eight columns, or a
    /// string does not name a square.
    InvalidCoordinate,
    /// A sequence of steps left the board.
    OutOfBounds,
    /// The action is of a kind that cannot be applied.
    Unsupported,
}

} // verus!
