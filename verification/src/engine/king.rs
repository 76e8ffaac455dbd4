//! How a king moves and captures, and when it may castle.

use vstd::prelude::*;
use crate::Side;
use crate::action::{Action, CastleSide};
use crate::board::{cell_index, Coordinate};
use crate::engine::{attacked, has_king, in_check, is_in_check, opponent_can_capture};
use crate::engine::mover::{hop, Mover};
use crate::engine::squares::{
    as_captures, as_moves, captures_at, hostile, keep_hostile, keep_landed, keep_vacant, landed,
    lemma_hostile, lemma_landed, moves_to, vacant,
};
use crate::error::Error;
use crate::game::{GameState, GameView};
use crate::piece::{Piece, Rank};

verus! {

/// The eight squares around `from`, clockwise from the north as `side` sees
/// the board, whether or not they lie on the board.
pub open spec fn neighbours(from: Coordinate, side: Side) -> Seq<Result<Coordinate, Error>> {
    seq![
        hop(from, side, 1, 0),
        hop(from, side, 1, 1),
        hop(from, side, 0, 1),
        hop(from, side, -1, 1),
        hop(from, side, -1, 0),
        hop(from, side, -1, -1),
        hop(from, side, 0, -1),
        hop(from, side, 1, -1),
    ]
}

/// The moves of the king on `from`: onto each empty square around it.
pub open spec fn moves(cells: Seq<Option<Piece>>, from: Coordinate) -> Seq<Action> {
    let piece = cells[cell_index(from)]->0;
    moves_to(piece, from, vacant(cells, landed(neighbours(from, piece.side_of()))))
}

/// The captures of the king on `from`: of each piece of the other side on a
/// square around it.
pub open spec fn captures(cells: Seq<Option<Piece>>, from: Coordinate) -> Seq<Action> {
    let piece = cells[cell_index(from)]->0;
    captures_at(
        cells,
        piece,
        from,
        hostile(cells, landed(neighbours(from, piece.side_of())), piece.side_of()),
    )
}

/// The squares around `from` that lie on the board.
fn surroundings(from: &Coordinate, side: Side) -> (squares: Vec<Coordinate>)
    requires
        from.in_bounds(),
    ensures
        squares@ == landed(neighbours(*from, side)),
        forall|i: int| 0 <= i < squares@.len() ==> (#[trigger] squares@[i]).in_bounds(),
{
    let mut steps: Vec<Result<Coordinate, Error>> = Vec::new();
    // North
    steps.push(Mover::new(side).move_to(from).north().make());
    // North East
    steps.push(Mover::new(side).move_to(from).north().east().make());
    // East
    steps.push(Mover::new(side).move_to(from).east().make());
    // South East
    steps.push(Mover::new(side).move_to(from).south().east().make());
    // South
    steps.push(Mover::new(side).move_to(from).south().make());
    // South West
    steps.push(Mover::new(side).move_to(from).south().west().make());
    // West
    steps.push(Mover::new(side).move_to(from).west().make());
    // North West
    steps.push(Mover::new(side).move_to(from).north().west().make());
    assert(steps@ =~= neighbours(*from, side));
    proof {
        lemma_landed(steps@);
    }
    keep_landed(&steps)
}

/// The moves of the king on `from`, onto empty squares only.
pub fn possible_moves(from: &Coordinate, state: &GameState) -> (found: Vec<Action>)
    requires
        from.in_bounds(),
        state@.cells[cell_index(*from)] is Some,
    ensures
        found@ == moves(state@.cells, *from),
{
    let piece = state.piece_at(*from).unwrap();
    let squares = surroundings(from, piece.side());
    let free = keep_vacant(state.board(), &squares);
    as_moves(piece, from, &free)
}

/// The captures of the king on `from`, of pieces of the other side only.
pub fn possible_captures(from: &Coordinate, state: &GameState) -> (found: Vec<Action>)
    requires
        from.in_bounds(),
        state@.cells[cell_index(*from)] is Some,
    ensures
        found@ == captures(state@.cells, *from),
{
    let piece = state.piece_at(*from).unwrap();
    let side = piece.side();
    let squares = surroundings(from, side);
    let taken = keep_hostile(state.board(), &squares, side);
    proof {
        lemma_hostile(state@.cells, squares@, side);
    }
    as_captures(state.board(), piece, from, &taken)
}

/// The row on which the king and the rooks of `side` start.
pub open spec fn home_row(side: Side) -> usize {
    match side {
        Side::White => 0,
        Side::Black => 7,
    }
}

/// Whether `action` is a move of the king of `side`, or a move of a rook of
/// `side` that starts on the queen-side rook's starting square: the first
/// column of the side's home row.
pub open spec fn moves_king_or_queen_rook(action: Action, side: Side) -> bool {
    action matches Action::MovePiece(piece, from, _) && piece.side_of() == side && (
    piece.rank_of() == Rank::King || (piece.rank_of() == Rank::Rook && from == (Coordinate {
        row: home_row(side),
        column: 0,
    })))
}

/// Whether the side to move may castle on the queen's side: its king and
/// its queen-side rook stand on their starting squares; the king is not
/// attacked; the history holds no move of that side's king or queen-side
/// rook; the three squares between king and rook are empty; and neither of
/// the two squares that the king crosses or reaches is attacked.
pub open spec fn may_castle_queen_side(position: GameView) -> bool {
    let side = position.next_to_move;
    let row = home_row(side);
    &&& position.cells[cell_index(Coordinate { row, column: 4 })] == Some(
        Piece::of(side, Rank::King),
    )
    &&& position.cells[cell_index(Coordinate { row, column: 0 })] == Some(
        Piece::of(side, Rank::Rook),
    )
    &&& !in_check(position.cells, side)
    &&& forall|i: int|
        0 <= i < position.history.len() ==> !moves_king_or_queen_rook(
            #[trigger] position.history[i],
            side,
        )
    &&& position.cells[cell_index(Coordinate { row, column: 1 })] is None
    &&& position.cells[cell_index(Coordinate { row, column: 2 })] is None
    &&& position.cells[cell_index(Coordinate { row, column: 3 })] is None
    &&& !attacked(position.cells, Coordinate { row, column: 2 }, side)
    &&& !attacked(position.cells, Coordinate { row, column: 3 }, side)
}

/// The actions of the king on `from`: its moves, its captures, and castling
/// on the queen's side where the side to move may castle.
pub open spec fn actions(position: GameView, from: Coordinate) -> Seq<Action> {
    let plain = moves(position.cells, from) + captures(position.cells, from);
    if may_castle_queen_side(position) {
        plain.push(Action::Castle(CastleSide::QueenSide))
    } else {
        plain
    }
}

/// The pseudo-legal actions of the king on `from`: its moves, then its
/// captures, then castling where the side to move may castle.
pub fn possible_actions(from: &Coordinate, state: &GameState) -> (found: Vec<Action>)
    requires
        from.in_bounds(),
        state@.cells[cell_index(*from)] is Some,
    ensures
        found@ == actions(state@, *from),
{
    let mut found: Vec<Action> = Vec::new();
    let mut quiet = possible_moves(from, state);
    let mut taking = possible_captures(from, state);
    found.append(&mut quiet);
    found.append(&mut taking);
    if can_castle_queen_side(state) {
        found.push(Action::Castle(CastleSide::QueenSide));
    }
    found
}

/// Whether the history holds a move of the king of `side` or of its
/// queen-side rook.
fn has_moved_king_or_queen_rook(history: &Vec<Action>, side: Side) -> (moved: bool)
    ensures
        moved == exists|i: int|
            0 <= i < history@.len() && moves_king_or_queen_rook(#[trigger] history@[i], side),
{
    let rook_square = Coordinate::new(
        match side {
            Side::White => 0,
            Side::Black => 7,
        },
        0,
    );
    let mut i: usize = 0;
    while i < history.len()
        invariant
            i <= history.len(),
            rook_square == (Coordinate { row: home_row(side), column: 0 }),
            forall|k: int| 0 <= k < i ==> !moves_king_or_queen_rook(#[trigger] history@[k], side),
        decreases history.len() - i,
    {
        match history[i] {
            Action::MovePiece(piece, from, _) => {
                if piece.side() == side && (piece.rank() == Rank::King || (piece.rank()
                    == Rank::Rook && from == rook_square)) {
                    return true;
                }
            },
            _ => {},
        }
        i = i + 1;
    }
    false
}

/// Whether `cell` holds `piece`.
fn holds(cell: &Option<Piece>, piece: Piece) -> (held: bool)
    ensures
        held == (*cell == Some(piece)),
{
    match *cell {
        Some(found) => found == piece,
        None => false,
    }
}

/// Whether the side to move may castle on the queen's side.
pub fn can_castle_queen_side(state: &GameState) -> (can: bool)
    ensures
        can == may_castle_queen_side(state@),
{
    let my_side = state.next_to_move();
    let row: usize = match my_side {
        Side::White => 0,
        Side::Black => 7,
    };
    let king_square = Coordinate::new(row, 4);
    let rook_square = Coordinate::new(row, 0);
    if !holds(state.piece_at(king_square), Piece::pack(my_side, Rank::King)) || !holds(
        state.piece_at(rook_square),
        Piece::pack(my_side, Rank::Rook),
    ) {
        return false;
    }
    assert(has_king(state@.cells, my_side));
    let knight_square = Coordinate::new(row, 1);
    let bishop_square = Coordinate::new(row, 2);
    let queen_square = Coordinate::new(row, 3);
    !is_in_check(state, my_side) && !has_moved_king_or_queen_rook(state.history(), my_side)
        && state.board().is_empty(knight_square) && state.board().is_empty(bishop_square)
        && state.board().is_empty(queen_square) && !opponent_can_capture(
        &bishop_square,
        my_side,
        state,
    ) && !opponent_can_capture(&queen_square, my_side, state)
}

} // verus!
