//! How a bishop moves and captures.

use vstd::prelude::*;
use crate::action::Action;
use crate::board::{cell_index, Coordinate};
use crate::engine::mover::Direction;
use crate::engine::ray::{slide_captures, slide_moves, sliding_captures, sliding_moves};
use crate::game::GameState;
use crate::piece::Piece;

verus! {

/// The directions in which a bishop slides: the four diagonals.
pub open spec fn directions() -> Seq<Direction> {
    seq![
        Direction::NorthEast,
        Direction::SouthEast,
        Direction::SouthWest,
        Direction::NorthWest,
    ]
}

/// The moves of the bishop on `from`: along each of its directions, onto
/// every square up to the first that is occupied or off the board.
pub open spec fn moves(cells: Seq<Option<Piece>>, from: Coordinate) -> Seq<Action> {
    sliding_moves(cells, from, directions())
}

/// The captures of the bishop on `from`: in each of its directions, of the
/// first piece met, where it belongs to the other side.
pub open spec fn captures(cells: Seq<Option<Piece>>, from: Coordinate) -> Seq<Action> {
    sliding_captures(cells, from, directions())
}

/// The moves of the bishop on `from`, then its captures.
pub open spec fn actions(cells: Seq<Option<Piece>>, from: Coordinate) -> Seq<Action> {
    moves(cells, from) + captures(cells, from)
}

/// The directions in which a bishop slides.
fn sliding_directions() -> (list: Vec<Direction>)
    ensures
        list@ == directions(),
{
    let mut list: Vec<Direction> = Vec::new();
    list.push(Direction::NorthEast);
    list.push(Direction::SouthEast);
    list.push(Direction::SouthWest);
    list.push(Direction::NorthWest);
    list
}

/// The pseudo-legal actions of the bishop on `from`: its moves, then its
/// captures.
pub fn possible_actions(from: &Coordinate, state: &GameState) -> (found: Vec<Action>)
    requires
        from.in_bounds(),
        state@.cells[cell_index(*from)] is Some,
    ensures
        found@ == actions(state@.cells, *from),
{
    let mut found: Vec<Action> = Vec::new();
    let mut quiet = possible_moves(from, state);
    let mut taking = possible_captures(from, state);
    found.append(&mut quiet);
    found.append(&mut taking);
    found
}

/// The moves of the bishop on `from`, onto empty squares only.
pub fn possible_moves(from: &Coordinate, state: &GameState) -> (found: Vec<Action>)
    requires
        from.in_bounds(),
        state@.cells[cell_index(*from)] is Some,
    ensures
        found@ == moves(state@.cells, *from),
{
    slide_moves(from, state, &sliding_directions())
}

/// The captures of the bishop on `from`, of pieces of the other side only.
pub fn possible_captures(from: &Coordinate, state: &GameState) -> (found: Vec<Action>)
    requires
        from.in_bounds(),
        state@.cells[cell_index(*from)] is Some,
    ensures
        found@ == captures(state@.cells, *from),
{
    slide_captures(from, state, &sliding_directions())
}

} // verus!
