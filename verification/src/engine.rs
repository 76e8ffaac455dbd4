//! Move generation, check detection and the legality filter.

use vstd::prelude::*;
use crate::Side;
use crate::action::{Action, CastleSide};
use crate::board::{
    cell_index, lemma_occupied, lemma_squares_holding, occupied, squares_holding, Coordinate,
};
use crate::engine::ray::lemma_sliding_fits;
use crate::engine::squares::{all_fit, lemma_stepping_fits};
use crate::game::{fits, lemma_undo_restores, supported, GameState, GameView};
use crate::piece::{Piece, Rank};

pub mod bishop;
pub mod king;
pub mod knight;
pub mod mover;
pub mod pawn;
pub mod queen;
pub mod ray;
pub mod rook;
pub mod squares;

verus! {

/// The moves and captures of the piece on `from`, moves first; nothing where
/// the square is empty. These are pseudo-legal: they respect what the board
/// holds and where it ends, not whether the mover's king is left attacked.
pub open spec fn moves_and_captures(cells: Seq<Option<Piece>>, from: Coordinate) -> Seq<Action> {
    match cells[cell_index(from)] {
        Some(piece) => match piece.rank_of() {
            Rank::Pawn => pawn::actions(cells, from),
            Rank::Knight => knight::actions(cells, from),
            Rank::Bishop => bishop::actions(cells, from),
            Rank::Rook => rook::actions(cells, from),
            Rank::Queen => queen::actions(cells, from),
            Rank::King => king::moves(cells, from) + king::captures(cells, from),
        },
        None => Seq::empty(),
    }
}

/// Every pseudo-legal action of the piece on `from`: its moves and captures
/// and, for a king, castling where `can_castle_queen_side` holds.
pub open spec fn pseudo_legal(position: GameView, from: Coordinate) -> Seq<Action> {
    match position.cells[cell_index(from)] {
        Some(piece) => if piece.rank_of() == Rank::King {
            king::actions(position, from)
        } else {
            moves_and_captures(position.cells, from)
        },
        None => Seq::empty(),
    }
}

/// Whether one of `actions` is a move or a capture that ends on `target`.
pub open spec fn aims_at(actions: Seq<Action>, target: Coordinate) -> bool {
    exists|k: int|
        0 <= k < actions.len() && (#[trigger] actions[k]).lands() && actions[k].target() == target
}

/// Whether the piece on `from` has a move or a capture that ends on
/// `target`.
pub open spec fn attacks(cells: Seq<Option<Piece>>, from: Coordinate, target: Coordinate) -> bool {
    aims_at(moves_and_captures(cells, from), target)
}

/// Whether some piece of the side other than `side` has a move or a capture
/// that ends on `target`.
pub open spec fn attacked(cells: Seq<Option<Piece>>, target: Coordinate, side: Side) -> bool {
    exists|from: Coordinate|
        from.in_bounds() && cells[cell_index(from)] is Some && cells[cell_index(
            from,
        )]->0.side_of() != side && #[trigger] attacks(cells, from, target)
}

/// Whether a king of `side` stands on the board.
pub open spec fn has_king(cells: Seq<Option<Piece>>, side: Side) -> bool {
    exists|c: Coordinate|
        c.in_bounds() && #[trigger] cells[cell_index(c)] == Some(Piece::of(side, Rank::King))
}

/// The square of the king of `side`: the first in row-major order where
/// there are several.
pub open spec fn king_square(cells: Seq<Option<Piece>>, side: Side) -> Coordinate {
    squares_holding(occupied(cells), Piece::of(side, Rank::King))[0]
}

/// Whether the king of `side` is attacked.
pub open spec fn in_check(cells: Seq<Option<Piece>>, side: Side) -> bool {
    attacked(cells, king_square(cells, side), side)
}

/// Where a king of `side` stands, `king_square` is a square of the board
/// that holds it.
pub proof fn lemma_king_square(cells: Seq<Option<Piece>>, side: Side)
    requires
        cells.len() == 64,
        has_king(cells, side),
    ensures
        squares_holding(occupied(cells), Piece::of(side, Rank::King)).len() > 0,
        king_square(cells, side).in_bounds(),
        cells[cell_index(king_square(cells, side))] == Some(Piece::of(side, Rank::King)),
{
    let king = Piece::of(side, Rank::King);
    lemma_occupied(cells, 64);
    lemma_squares_holding(occupied(cells), king);
}

/// Whether `action` is a move or a capture that ends on `coord`.
pub fn action_matches_coordinate(action: &Action, coord: &Coordinate) -> (matches: bool)
    ensures
        matches == (action.lands() && action.target() == *coord),
{
    match *action {
        Action::MovePiece(_, _, to) => *coord == to,
        Action::Capture(_, _, _, to) => *coord == to,
        _ => false,
    }
}

/// The moves and captures of the piece on `from`; nothing where the square
/// is empty.
pub fn enumerate_moves_and_captures(from: &Coordinate, state: &GameState) -> (found: Vec<Action>)
    requires
        from.in_bounds(),
    ensures
        found@ == moves_and_captures(state@.cells, *from),
{
    match *state.piece_at(*from) {
        Some(piece) => match piece.rank() {
            Rank::Pawn => pawn::possible_actions(from, state),
            Rank::Knight => knight::possible_actions(from, state),
            Rank::Bishop => bishop::possible_actions(from, state),
            Rank::Rook => rook::possible_actions(from, state),
            Rank::Queen => queen::possible_actions(from, state),
            Rank::King => {
                let mut found = king::possible_moves(from, state);
                let mut taking = king::possible_captures(from, state);
                found.append(&mut taking);
                found
            },
        },
        None => Vec::new(),
    }
}

/// Every pseudo-legal action of the piece on `from`; nothing where the
/// square is empty.
pub fn enumerate_all_actions(from: &Coordinate, state: &GameState) -> (found: Vec<Action>)
    requires
        from.in_bounds(),
    ensures
        found@ == pseudo_legal(state@, *from),
{
    match *state.piece_at(*from) {
        Some(piece) => match piece.rank() {
            Rank::King => king::possible_actions(from, state),
            _ => enumerate_moves_and_captures(from, state),
        },
        None => Vec::new(),
    }
}

/// Whether one of `actions` is a move or a capture that ends on `coord`.
fn any_aims_at(actions: &Vec<Action>, coord: &Coordinate) -> (found: bool)
    ensures
        found == aims_at(actions@, *coord),
{
    let mut i: usize = 0;
    while i < actions.len()
        invariant
            i <= actions.len(),
            forall|k: int|
                0 <= k < i ==> !((#[trigger] actions@[k]).lands() && actions@[k].target()
                    == *coord),
        decreases actions.len() - i,
    {
        if action_matches_coordinate(&actions[i], coord) {
            return true;
        }
        i = i + 1;
    }
    false
}

/// Whether a piece of the side other than `my_side` has a move or a capture
/// that ends on `coord`.
pub fn opponent_can_capture(coord: &Coordinate, my_side: Side, state: &GameState) -> (can: bool)
    ensures
        can == attacked(state@.cells, *coord, my_side),
{
    let entries = state.board().pieces_with_coordinates();
    proof {
        lemma_occupied(state@.cells, 64);
    }
    let mut i: usize = 0;
    while i < entries.len()
        invariant
            i <= entries.len(),
            entries@ == occupied(state@.cells),
            state@.cells.len() == 64,
            forall|j: int|
                0 <= j < entries@.len() ==> {
                    let entry = #[trigger] entries@[j];
                    &&& entry.0.in_bounds()
                    &&& state@.cells[cell_index(entry.0)] == Some(entry.1)
                },
            forall|j: int|
                0 <= j < i ==> !((#[trigger] entries@[j]).1.side_of() != my_side && attacks(
                    state@.cells,
                    entries@[j].0,
                    *coord,
                )),
        decreases entries.len() - i,
    {
        let (coordinate, piece) = entries[i];
        if piece.side() != my_side {
            let actions = enumerate_moves_and_captures(&coordinate, state);
            if any_aims_at(&actions, coord) {
                assert(attacks(state@.cells, coordinate, *coord));
                return true;
            }
        }
        i = i + 1;
    }
    proof {
        assert forall|from: Coordinate|
            from.in_bounds() && state@.cells[cell_index(from)] is Some && state@.cells[cell_index(
                from,
            )]->0.side_of() != my_side implies !#[trigger] attacks(state@.cells, from, *coord) by {}
    }
    false
}

/// Whether the king of `side` is attacked. There must be such a king.
pub fn is_in_check(state: &GameState, side: Side) -> (check: bool)
    requires
        has_king(state@.cells, side),
    ensures
        check == in_check(state@.cells, side),
{
    let my_king = Piece::pack(side, Rank::King);
    let all_my_king_coordinates = state.board().find_pieces(my_king);
    proof {
        lemma_king_square(state@.cells, side);
    }
    let king_coordinate = all_my_king_coordinates[0];
    opponent_can_capture(&king_coordinate, side, state)
}

/// Every move and capture that the generators produce for the piece on
/// `from` starts on `from` and fits the cells, and no piece has more than 64
/// of them.
pub proof fn lemma_moves_and_captures_fit(cells: Seq<Option<Piece>>, from: Coordinate)
    requires
        from.in_bounds(),
    ensures
        all_fit(cells, from, moves_and_captures(cells, from)),
        moves_and_captures(cells, from).len() <= 64,
{
    match cells[cell_index(from)] {
        Some(piece) => {
            let side = piece.side_of();
            match piece.rank_of() {
                Rank::Pawn => {
                    lemma_stepping_fits(cells, from, pawn::advances(cells, from, side));
                    lemma_stepping_fits(cells, from, pawn::diagonals(from, side));
                },
                Rank::Knight => {
                    lemma_stepping_fits(cells, from, knight::jumps(from, side));
                },
                Rank::Bishop => {
                    lemma_sliding_fits(cells, from, bishop::directions());
                },
                Rank::Rook => {
                    lemma_sliding_fits(cells, from, rook::directions());
                },
                Rank::Queen => {
                    lemma_sliding_fits(cells, from, queen::directions());
                },
                Rank::King => {
                    lemma_stepping_fits(cells, from, king::neighbours(from, side));
                },
            }
        },
        None => {},
    }
}

/// Every pseudo-legal action of the piece on `from` is a move or a capture
/// that starts on `from` and fits the cells, or it is castling on the
/// queen's side by a side that may castle; no piece has more than 65.
pub proof fn lemma_pseudo_legal_fits(position: GameView, from: Coordinate, k: int)
    requires
        from.in_bounds(),
        0 <= k < pseudo_legal(position, from).len(),
    ensures
        pseudo_legal(position, from).len() <= 65,
        position.cells[cell_index(from)] is Some,
        pseudo_legal(position, from)[k].lands() ==> fits(
            position.cells,
            pseudo_legal(position, from)[k],
        ) && pseudo_legal(position, from)[k].origin() == from,
        !pseudo_legal(position, from)[k].lands() ==> pseudo_legal(position, from)[k]
            == Action::Castle(CastleSide::QueenSide) && king::may_castle_queen_side(position),
{
    lemma_moves_and_captures_fit(position.cells, from);
}

/// Whether `action` can be applied and leaves the king of the side that
/// takes it safe: it is a move or a capture that `advance` applies, and the
/// king of the mover's side is not attacked once it is applied. Castling,
/// which `advance` does not apply, never is.
pub open spec fn keeps_king_safe(position: GameView, action: Action) -> bool {
    supported(action) && !in_check(position.after(action).cells, action.mover().side_of())
}

/// Those of `actions` that can be applied and keep the king of the acting
/// side safe, in order.
pub open spec fn safe_among(position: GameView, actions: Seq<Action>) -> Seq<Action>
    decreases actions.len(),
{
    if actions.len() == 0 {
        Seq::empty()
    } else {
        let before = safe_among(position, actions.drop_last());
        if keeps_king_safe(position, actions.last()) {
            before.push(actions.last())
        } else {
            before
        }
    }
}

/// The legal actions of the piece on `from`: its pseudo-legal moves and
/// captures that do not leave the king of its side attacked. Castling is
/// pseudo-legal only: no position can be reached by it, so it is never
/// among the legal actions.
pub open spec fn legal(position: GameView, from: Coordinate) -> Seq<Action> {
    safe_among(position, pseudo_legal(position, from))
}

/// Whether `side` has no legal action: none of its pieces has one. The side
/// need not be in check.
pub open spec fn checkmated(position: GameView, side: Side) -> bool {
    forall|c: Coordinate|
        c.in_bounds() && position.cells[cell_index(c)] is Some && position.cells[cell_index(
            c,
        )]->0.side_of() == side ==> (#[trigger] legal(position, c)).len() == 0
}

/// Every action that `safe_among` keeps is one of those it was given and
/// keeps the king safe.
pub proof fn lemma_safe_among(position: GameView, actions: Seq<Action>)
    ensures
        safe_among(position, actions).len() <= actions.len(),
        forall|k: int|
            0 <= k < safe_among(position, actions).len() ==> keeps_king_safe(
                position,
                #[trigger] safe_among(position, actions)[k],
            ) && actions.contains(safe_among(position, actions)[k]),
    decreases actions.len(),
{
    if actions.len() > 0 {
        let shorter = actions.drop_last();
        lemma_safe_among(position, shorter);
        let kept = safe_among(position, actions);
        assert forall|k: int| 0 <= k < kept.len() implies keeps_king_safe(
            position,
            #[trigger] kept[k],
        ) && actions.contains(kept[k]) by {}
    }
}

/// A move or a capture that fits the board leaves the king of the mover's
/// side on the board.
pub proof fn lemma_king_stays(cells: Seq<Option<Piece>>, position: GameView, action: Action)
    requires
        cells == position.cells,
        cells.len() == 64,
        fits(cells, action),
        has_king(cells, action.mover().side_of()),
    ensures
        has_king(position.after(action).cells, action.mover().side_of()),
{
    let side = action.mover().side_of();
    let king = Piece::of(side, Rank::King);
    Piece::lemma_of_parts(side, Rank::King);
    let c = choose|c: Coordinate| c.in_bounds() && #[trigger] cells[cell_index(c)] == Some(king);
    let next = position.after(action).cells;
    if c == action.origin() {
        assert(next[cell_index(action.target())] == Some(king));
    } else {
        assert(next[cell_index(c)] == Some(king));
    }
}

/// Every legal action of the piece on `from` is a move or a capture that
/// starts on `from` and fits the cells.
pub proof fn lemma_legal_fits(position: GameView, from: Coordinate, k: int)
    requires
        from.in_bounds(),
        0 <= k < legal(position, from).len(),
    ensures
        legal(position, from)[k].lands(),
        legal(position, from)[k].origin() == from,
        fits(position.cells, legal(position, from)[k]),
        keeps_king_safe(position, legal(position, from)[k]),
        pseudo_legal(position, from).contains(legal(position, from)[k]),
{
    let candidates = pseudo_legal(position, from);
    lemma_safe_among(position, candidates);
    let action = legal(position, from)[k];
    let i = choose|i: int| 0 <= i < candidates.len() && candidates[i] == action;
    lemma_pseudo_legal_fits(position, from, i);
}

/// Whether `action` can be applied and the king of the side that takes it
/// is not attacked once it is applied; false for an action that `advance`
/// does not apply. The position is left as it was.
pub fn leads_out_of_check(action: &Action, state: &mut GameState) -> (safe: bool)
    requires
        action.lands() ==> fits(old(state)@.cells, *action) && has_king(
            old(state)@.cells,
            action.mover().side_of(),
        ),
    ensures
        final(state)@ == old(state)@,
        safe == keeps_king_safe(old(state)@, *action),
{
    let side = match *action {
        Action::MovePiece(piece, _, _) => piece.side(),
        Action::Capture(piece, _, _, _) => piece.side(),
        _ => {
            return false;
        },
    };
    proof {
        state.lemma_cells();
        lemma_king_stays(state@.cells, state@, *action);
        lemma_undo_restores(state@, *action);
    }
    let king_is_safe = |new_state: &GameState| -> (safe: bool)
        requires
            has_king(new_state@.cells, side),
        ensures
            safe != in_check(new_state@.cells, side),
        {
            !is_in_check(new_state, side)
        };
    state.evaluate_with_action(*action, king_is_safe)
}

/// The legal actions of the piece on `from`: its pseudo-legal moves and
/// captures that do not leave the king of its side attacked. The position
/// is left as it was.
pub fn possible_actions(from: &Coordinate, state: &mut GameState) -> (found: Vec<Action>)
    requires
        from.in_bounds(),
        old(state)@.cells[cell_index(*from)] is Some ==> has_king(
            old(state)@.cells,
            old(state)@.cells[cell_index(*from)]->0.side_of(),
        ),
    ensures
        final(state)@ == old(state)@,
        found@ == legal(old(state)@, *from),
{
    let candidates = enumerate_all_actions(from, state);
    let mut found: Vec<Action> = Vec::new();
    let mut i: usize = 0;
    while i < candidates.len()
        invariant
            i <= candidates.len(),
            from.in_bounds(),
            state@ == old(state)@,
            candidates@ == pseudo_legal(state@, *from),
            state@.cells[cell_index(*from)] is Some ==> has_king(
                state@.cells,
                state@.cells[cell_index(*from)]->0.side_of(),
            ),
            found@ == safe_among(state@, candidates@.take(i as int)),
        decreases candidates.len() - i,
    {
        proof {
            assert(candidates@.take(i + 1).drop_last() =~= candidates@.take(i as int));
            lemma_pseudo_legal_fits(state@, *from, i as int);
        }
        let action = candidates[i];
        if leads_out_of_check(&action, state) {
            found.push(action);
        }
        i = i + 1;
    }
    proof {
        assert(candidates@.take(candidates.len() as int) =~= candidates@);
    }
    found
}

/// Whether `side` has no legal action. The position is left as it was.
pub fn is_in_checkmate(state: &mut GameState, side: Side) -> (mate: bool)
    requires
        has_king(old(state)@.cells, side),
    ensures
        final(state)@ == old(state)@,
        mate == checkmated(old(state)@, side),
{
    let entries = state.board().pieces_with_coordinates();
    proof {
        lemma_occupied(state@.cells, 64);
    }
    let mut i: usize = 0;
    while i < entries.len()
        invariant
            i <= entries.len(),
            state@ == old(state)@,
            has_king(state@.cells, side),
            entries@ == occupied(state@.cells),
            forall|j: int|
                0 <= j < entries@.len() ==> {
                    let entry = #[trigger] entries@[j];
                    &&& entry.0.in_bounds()
                    &&& state@.cells[cell_index(entry.0)] == Some(entry.1)
                },
            forall|j: int|
                0 <= j < i && (#[trigger] entries@[j]).1.side_of() == side ==> legal(
                    state@,
                    entries@[j].0,
                ).len() == 0,
        decreases entries.len() - i,
    {
        let (coordinate, piece) = entries[i];
        if piece.side() == side {
            let actions = possible_actions(&coordinate, state);
            if !actions.is_empty() {
                return false;
            }
        }
        i = i + 1;
    }
    proof {
        assert forall|c: Coordinate|
            c.in_bounds() && state@.cells[cell_index(c)] is Some && state@.cells[cell_index(
                c,
            )]->0.side_of() == side implies (#[trigger] legal(state@, c)).len() == 0 by {}
    }
    true
}

} // verus!
