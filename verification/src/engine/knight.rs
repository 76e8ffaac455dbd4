//! How a knight moves and captures.

use vstd::prelude::*;
use crate::Side;
use crate::action::Action;
use crate::board::{cell_index, Coordinate};
use crate::engine::mover::{hop, Mover};
use crate::engine::squares::{
    as_captures, as_moves, captures_at, hostile, keep_hostile, keep_landed, keep_vacant, landed,
    lemma_hostile, lemma_landed, moves_to, vacant,
};
use crate::error::Error;
use crate::game::GameState;
use crate::piece::Piece;

verus! {

/// The eight jumps of a knight of `side` on `from`, each two squares one way
/// and one square across, whether or not they stay on the board.
pub open spec fn jumps(from: Coordinate, side: Side) -> Seq<Result<Coordinate, Error>> {
    seq![
        hop(from, side, 2, -1),
        hop(from, side, 2, 1),
        hop(from, side, 1, 2),
        hop(from, side, -1, 2),
        hop(from, side, -2, 1),
        hop(from, side, -2, -1),
        hop(from, side, -1, -2),
        hop(from, side, 1, -2),
    ]
}

/// The moves of the knight on `from`: onto each empty square among its
/// jumps. What stands between does not matter.
pub open spec fn moves(cells: Seq<Option<Piece>>, from: Coordinate) -> Seq<Action> {
    let piece = cells[cell_index(from)]->0;
    moves_to(piece, from, vacant(cells, landed(jumps(from, piece.side_of()))))
}

/// The captures of the knight on `from`: of each piece of the other side on
/// a square among its jumps.
pub open spec fn captures(cells: Seq<Option<Piece>>, from: Coordinate) -> Seq<Action> {
    let piece = cells[cell_index(from)]->0;
    captures_at(
        cells,
        piece,
        from,
        hostile(cells, landed(jumps(from, piece.side_of())), piece.side_of()),
    )
}

/// The moves of the knight on `from`, then its captures.
pub open spec fn actions(cells: Seq<Option<Piece>>, from: Coordinate) -> Seq<Action> {
    moves(cells, from) + captures(cells, from)
}

/// The pseudo-legal actions of the knight on `from`: its moves, then its
/// captures.
pub fn possible_actions(from: &Coordinate, state: &GameState) -> (found: Vec<Action>)
    requires
        from.in_bounds(),
        state@.cells[cell_index(*from)] is Some,
    ensures
        found@ == actions(state@.cells, *from),
{
    let mut found: Vec<Action> = Vec::new();
    let mut quiet = possible_moves(from, state);
    let mut taking = possible_captures(from, state);
    found.append(&mut quiet);
    found.append(&mut taking);
    found
}

/// The moves of the knight on `from`, onto empty squares only.
pub fn possible_moves(from: &Coordinate, state: &GameState) -> (found: Vec<Action>)
    requires
        from.in_bounds(),
        state@.cells[cell_index(*from)] is Some,
    ensures
        found@ == moves(state@.cells, *from),
{
    let piece = state.piece_at(*from).unwrap();
    let squares = knight_moves(from, piece.side());
    let free = keep_vacant(state.board(), &squares);
    as_moves(piece, from, &free)
}

/// The captures of the knight on `from`, of pieces of the other side only.
pub fn possible_captures(from: &Coordinate, state: &GameState) -> (found: Vec<Action>)
    requires
        from.in_bounds(),
        state@.cells[cell_index(*from)] is Some,
    ensures
        found@ == captures(state@.cells, *from),
{
    let piece = state.piece_at(*from).unwrap();
    let side = piece.side();
    let squares = knight_moves(from, side);
    let taken = keep_hostile(state.board(), &squares, side);
    proof {
        lemma_hostile(state@.cells, squares@, side);
    }
    as_captures(state.board(), piece, from, &taken)
}

/// The squares of the board onto which a knight of `side` on `from` jumps.
pub fn knight_moves(from: &Coordinate, side: Side) -> (squares: Vec<Coordinate>)
    requires
        from.in_bounds(),
    ensures
        squares@ == landed(jumps(*from, side)),
        forall|i: int| 0 <= i < squares@.len() ==> (#[trigger] squares@[i]).in_bounds(),
{
    let mut steps: Vec<Result<Coordinate, Error>> = Vec::new();
    // North
    steps.push(Mover::new(side).move_to(from).north().north().west().make());
    steps.push(Mover::new(side).move_to(from).north().north().east().make());
    // East
    steps.push(Mover::new(side).move_to(from).east().east().north().make());
    steps.push(Mover::new(side).move_to(from).east().east().south().make());
    // South
    steps.push(Mover::new(side).move_to(from).south().south().east().make());
    steps.push(Mover::new(side).move_to(from).south().south().west().make());
    // West
    steps.push(Mover::new(side).move_to(from).west().west().south().make());
    steps.push(Mover::new(side).move_to(from).west().west().north().make());
    assert(steps@ =~= jumps(*from, side));
    proof {
        lemma_landed(steps@);
    }
    keep_landed(&steps)
}

} // verus!
