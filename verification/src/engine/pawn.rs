//! How a pawn moves and captures.

use vstd::prelude::*;
use crate::Side;
use crate::action::Action;
use crate::board::{cell_index, Coordinate};
use crate::engine::mover::{hop, Mover};
use crate::engine::squares::{
    as_captures, as_moves, captures_at, hostile, keep_hostile, keep_landed, keep_vacant, landed,
    lemma_hostile, lemma_landed, moves_to, vacant,
};
use crate::error::Error;
use crate::game::GameState;
use crate::piece::Piece;

verus! {

/// Whether `coordinate` lies on the row from which the pawns of `side`
/// start.
pub open spec fn on_starting_row(coordinate: Coordinate, side: Side) -> bool {
    match side {
        Side::White => coordinate.row == 1,
        Side::Black => coordinate.row == 6,
    }
}

/// The steps ahead that a pawn of `side` on `from` may try: one square
/// north, and two squares north where the pawn stands on its starting row
/// and the square between is empty.
pub open spec fn advances(cells: Seq<Option<Piece>>, from: Coordinate, side: Side) -> Seq<
    Result<Coordinate, Error>,
> {
    let one = hop(from, side, 1, 0);
    if on_starting_row(from, side) && one is Ok && cells[cell_index(one->Ok_0)] is None {
        seq![one, hop(from, side, 2, 0)]
    } else {
        seq![one]
    }
}

/// The squares diagonally ahead of a pawn of `side` on `from`: north-east,
/// then north-west.
pub open spec fn diagonals(from: Coordinate, side: Side) -> Seq<Result<Coordinate, Error>> {
    seq![hop(from, side, 1, 1), hop(from, side, 1, -1)]
}

/// The moves of the pawn on `from`: onto each empty square among its
/// advances.
pub open spec fn moves(cells: Seq<Option<Piece>>, from: Coordinate) -> Seq<Action> {
    let piece = cells[cell_index(from)]->0;
    moves_to(piece, from, vacant(cells, landed(advances(cells, from, piece.side_of()))))
}

/// The captures of the pawn on `from`: of each piece of the other side that
/// stands diagonally ahead.
pub open spec fn captures(cells: Seq<Option<Piece>>, from: Coordinate) -> Seq<Action> {
    let piece = cells[cell_index(from)]->0;
    captures_at(
        cells,
        piece,
        from,
        hostile(cells, landed(diagonals(from, piece.side_of())), piece.side_of()),
    )
}

/// The moves of the pawn on `from`, then its captures.
pub open spec fn actions(cells: Seq<Option<Piece>>, from: Coordinate) -> Seq<Action> {
    moves(cells, from) + captures(cells, from)
}

/// The pseudo-legal actions of the pawn on `from`: its moves, then its
/// captures.
pub fn possible_actions(from: &Coordinate, state: &GameState) -> (found: Vec<Action>)
    requires
        from.in_bounds(),
        state@.cells[cell_index(*from)] is Some,
    ensures
        found@ == actions(state@.cells, *from),
{
    let mut found: Vec<Action> = Vec::new();
    let mut quiet = possible_moves(from, state);
    let mut taking = possible_captures(from, state);
    found.append(&mut quiet);
    found.append(&mut taking);
    found
}

/// The moves of the pawn on `from`, onto empty squares only.
pub fn possible_moves(from: &Coordinate, state: &GameState) -> (found: Vec<Action>)
    requires
        from.in_bounds(),
        state@.cells[cell_index(*from)] is Some,
    ensures
        found@ == moves(state@.cells, *from),
{
    let mut steps: Vec<Result<Coordinate, Error>> = Vec::new();
    let piece = state.piece_at(*from).unwrap();
    let side = piece.side();
    let one_square_forward = Mover::new(side).move_to(from).north().make();
    steps.push(one_square_forward);
    if is_starting_coordinate(from, side) && state.board().is_empty(one_square_forward.unwrap()) {
        steps.push(Mover::new(side).move_to(from).north().north().make());
    }
    assert(steps@ =~= advances(state@.cells, *from, side));
    proof {
        lemma_landed(steps@);
    }
    let squares = keep_landed(&steps);
    let free = keep_vacant(state.board(), &squares);
    as_moves(piece, from, &free)
}

/// The captures of the pawn on `from`, of pieces of the other side only.
pub fn possible_captures(from: &Coordinate, state: &GameState) -> (found: Vec<Action>)
    requires
        from.in_bounds(),
        state@.cells[cell_index(*from)] is Some,
    ensures
        found@ == captures(state@.cells, *from),
{
    let mut steps: Vec<Result<Coordinate, Error>> = Vec::new();
    let piece = state.piece_at(*from).unwrap();
    let side = piece.side();
    steps.push(Mover::new(side).move_to(from).north().east().make());
    steps.push(Mover::new(side).move_to(from).north().west().make());
    assert(steps@ =~= diagonals(*from, side));
    proof {
        lemma_landed(steps@);
    }
    let squares = keep_landed(&steps);
    let taken = keep_hostile(state.board(), &squares, side);
    proof {
        lemma_hostile(state@.cells, squares@, side);
    }
    as_captures(state.board(), piece, from, &taken)
}

/// Whether `coordinate` lies on the row from which the pawns of `side`
/// start.
pub fn is_starting_coordinate(coordinate: &Coordinate, side: Side) -> (starting: bool)
    ensures
        starting == on_starting_row(*coordinate, side),
{
    match side {
        Side::White => coordinate.row() == 1,
        Side::Black => coordinate.row() == 6,
    }
}

} // verus!
