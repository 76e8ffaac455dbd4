//! Choosing among candidate squares and turning squares into actions: the
//! building blocks of the pieces that step (pawn, knight and king).

use vstd::prelude::*;
use crate::Side;
use crate::action::Action;
use crate::board::{cell_index, Board, Coordinate};
use crate::error::Error;
use crate::game::fits;
use crate::piece::Piece;

verus! {

/// The squares among `candidates`, in order: what is left once the steps
/// that led off the board are dropped.
pub open spec fn landed(candidates: Seq<Result<Coordinate, Error>>) -> Seq<Coordinate>
    decreases candidates.len(),
{
    if candidates.len() == 0 {
        Seq::empty()
    } else {
        let before = landed(candidates.drop_last());
        match candidates.last() {
            Ok(c) => before.push(c),
            Err(_) => before,
        }
    }
}

/// The squares among `targets`, in order.
pub open spec fn present(targets: Seq<Option<Coordinate>>) -> Seq<Coordinate>
    decreases targets.len(),
{
    if targets.len() == 0 {
        Seq::empty()
    } else {
        let before = present(targets.drop_last());
        match targets.last() {
            Some(c) => before.push(c),
            None => before,
        }
    }
}

/// Those of `squares` that are empty, in order.
pub open spec fn vacant(cells: Seq<Option<Piece>>, squares: Seq<Coordinate>) -> Seq<Coordinate>
    decreases squares.len(),
{
    if squares.len() == 0 {
        Seq::empty()
    } else {
        let before = vacant(cells, squares.drop_last());
        if cells[cell_index(squares.last())] is None {
            before.push(squares.last())
        } else {
            before
        }
    }
}

/// Those of `squares` that hold a piece of the side other than `side`, in
/// order.
pub open spec fn hostile(cells: Seq<Option<Piece>>, squares: Seq<Coordinate>, side: Side) -> Seq<
    Coordinate,
>
    decreases squares.len(),
{
    if squares.len() == 0 {
        Seq::empty()
    } else {
        let before = hostile(cells, squares.drop_last(), side);
        match cells[cell_index(squares.last())] {
            Some(piece) => if piece.side_of() != side {
                before.push(squares.last())
            } else {
                before
            },
            None => before,
        }
    }
}

/// The moves of `piece` from `from` onto each of `squares`, in order.
pub open spec fn moves_to(piece: Piece, from: Coordinate, squares: Seq<Coordinate>) -> Seq<
    Action,
> {
    Seq::new(squares.len(), |i: int| Action::MovePiece(piece, from, squares[i]))
}

/// The captures by `piece` from `from` of what stands on each of `squares`,
/// in order.
pub open spec fn captures_at(
    cells: Seq<Option<Piece>>,
    piece: Piece,
    from: Coordinate,
    squares: Seq<Coordinate>,
) -> Seq<Action> {
    Seq::new(
        squares.len(),
        |i: int| Action::Capture(piece, cells[cell_index(squares[i])]->0, from, squares[i]),
    )
}

/// Whether every one of `squares` lies on the board.
pub open spec fn all_in_bounds(squares: Seq<Coordinate>) -> bool {
    forall|i: int| 0 <= i < squares.len() ==> (#[trigger] squares[i]).in_bounds()
}

/// Whether every one of `squares` is empty.
pub open spec fn all_vacant(cells: Seq<Option<Piece>>, squares: Seq<Coordinate>) -> bool {
    forall|i: int| 0 <= i < squares.len() ==> cells[cell_index(#[trigger] squares[i])] is None
}

/// Whether every one of `squares` holds a piece of the side other than
/// `side`.
pub open spec fn all_hostile(cells: Seq<Option<Piece>>, squares: Seq<Coordinate>, side: Side) -> bool {
    forall|i: int|
        0 <= i < squares.len() ==> cells[cell_index(#[trigger] squares[i])] is Some
            && cells[cell_index(squares[i])]->0.side_of() != side
}

/// What `landed` keeps is no more than it was given, and lies on the board
/// where every step that stayed on the board did.
pub proof fn lemma_landed(candidates: Seq<Result<Coordinate, Error>>)
    requires
        forall|i: int|
            0 <= i < candidates.len() && candidates[i] is Ok ==> (#[trigger] candidates[i])->Ok_0.in_bounds(),
    ensures
        landed(candidates).len() <= candidates.len(),
        all_in_bounds(landed(candidates)),
    decreases candidates.len(),
{
    if candidates.len() > 0 {
        lemma_landed(candidates.drop_last());
    }
}

/// What `present` keeps is no more than it was given; where every square
/// given lies on the board and holds a piece of the other side, so does
/// every square kept.
pub proof fn lemma_present(cells: Seq<Option<Piece>>, targets: Seq<Option<Coordinate>>, side: Side)
    requires
        forall|i: int|
            0 <= i < targets.len() && targets[i] is Some ==> {
                &&& (#[trigger] targets[i])->0.in_bounds()
                &&& cells[cell_index(targets[i]->0)] is Some
                &&& cells[cell_index(targets[i]->0)]->0.side_of() != side
            },
    ensures
        present(targets).len() <= targets.len(),
        all_in_bounds(present(targets)),
        all_hostile(cells, present(targets), side),
    decreases targets.len(),
{
    if targets.len() > 0 {
        lemma_present(cells, targets.drop_last(), side);
    }
}

/// What `vacant` keeps is no more than it was given, is empty, and lies on
/// the board where every square given did.
pub proof fn lemma_vacant(cells: Seq<Option<Piece>>, squares: Seq<Coordinate>)
    ensures
        vacant(cells, squares).len() <= squares.len(),
        all_vacant(cells, vacant(cells, squares)),
        all_in_bounds(squares) ==> all_in_bounds(vacant(cells, squares)),
    decreases squares.len(),
{
    if squares.len() > 0 {
        lemma_vacant(cells, squares.drop_last());
    }
}

/// What `hostile` keeps is no more than it was given, holds a piece of the
/// other side, and lies on the board where every square given did.
pub proof fn lemma_hostile(cells: Seq<Option<Piece>>, squares: Seq<Coordinate>, side: Side)
    ensures
        hostile(cells, squares, side).len() <= squares.len(),
        all_hostile(cells, hostile(cells, squares, side), side),
        all_in_bounds(squares) ==> all_in_bounds(hostile(cells, squares, side)),
    decreases squares.len(),
{
    if squares.len() > 0 {
        lemma_hostile(cells, squares.drop_last(), side);
    }
}

/// Drops the steps that led off the board.
pub fn keep_landed(candidates: &Vec<Result<Coordinate, Error>>) -> (squares: Vec<Coordinate>)
    ensures
        squares@ == landed(candidates@),
{
    let mut squares: Vec<Coordinate> = Vec::new();
    let mut i: usize = 0;
    while i < candidates.len()
        invariant
            i <= candidates.len(),
            squares@ == landed(candidates@.take(i as int)),
        decreases candidates.len() - i,
    {
        proof {
            assert(candidates@.take(i + 1).drop_last() =~= candidates@.take(i as int));
        }
        match candidates[i] {
            Ok(c) => {
                squares.push(c);
            },
            Err(_) => {},
        }
        i = i + 1;
    }
    proof {
        assert(candidates@.take(candidates.len() as int) =~= candidates@);
    }
    squares
}

/// Drops the rays on which nothing can be captured.
pub fn keep_present(targets: &Vec<Option<Coordinate>>) -> (squares: Vec<Coordinate>)
    ensures
        squares@ == present(targets@),
{
    let mut squares: Vec<Coordinate> = Vec::new();
    let mut i: usize = 0;
    while i < targets.len()
        invariant
            i <= targets.len(),
            squares@ == present(targets@.take(i as int)),
        decreases targets.len() - i,
    {
        proof {
            assert(targets@.take(i + 1).drop_last() =~= targets@.take(i as int));
        }
        match targets[i] {
            Some(c) => {
                squares.push(c);
            },
            None => {},
        }
        i = i + 1;
    }
    proof {
        assert(targets@.take(targets.len() as int) =~= targets@);
    }
    squares
}

/// Keeps the squares that are empty.
pub fn keep_vacant(board: &Board, squares: &Vec<Coordinate>) -> (kept: Vec<Coordinate>)
    requires
        all_in_bounds(squares@),
    ensures
        kept@ == vacant(board@, squares@),
{
    let mut kept: Vec<Coordinate> = Vec::new();
    let mut i: usize = 0;
    while i < squares.len()
        invariant
            i <= squares.len(),
            all_in_bounds(squares@),
            kept@ == vacant(board@, squares@.take(i as int)),
        decreases squares.len() - i,
    {
        proof {
            assert(squares@.take(i + 1).drop_last() =~= squares@.take(i as int));
        }
        let c = squares[i];
        if board.is_empty(c) {
            kept.push(c);
        }
        i = i + 1;
    }
    proof {
        assert(squares@.take(squares.len() as int) =~= squares@);
    }
    kept
}

/// Keeps the squares that hold a piece of the side other than `side`.
pub fn keep_hostile(board: &Board, squares: &Vec<Coordinate>, side: Side) -> (kept: Vec<Coordinate>)
    requires
        all_in_bounds(squares@),
    ensures
        kept@ == hostile(board@, squares@, side),
{
    let mut kept: Vec<Coordinate> = Vec::new();
    let mut i: usize = 0;
    while i < squares.len()
        invariant
            i <= squares.len(),
            all_in_bounds(squares@),
            kept@ == hostile(board@, squares@.take(i as int), side),
        decreases squares.len() - i,
    {
        proof {
            assert(squares@.take(i + 1).drop_last() =~= squares@.take(i as int));
        }
        let c = squares[i];
        match *board.piece_at(c) {
            Some(p) => {
                if p.side() != side {
                    kept.push(c);
                }
            },
            None => {},
        }
        i = i + 1;
    }
    proof {
        assert(squares@.take(squares.len() as int) =~= squares@);
    }
    kept
}

/// The move of `piece` from `from` onto each of `squares`.
pub fn as_moves(piece: Piece, from: &Coordinate, squares: &Vec<Coordinate>) -> (actions: Vec<Action>)
    ensures
        actions@ == moves_to(piece, *from, squares@),
{
    let mut actions: Vec<Action> = Vec::new();
    let mut i: usize = 0;
    while i < squares.len()
        invariant
            i <= squares.len(),
            actions@ == moves_to(piece, *from, squares@.take(i as int)),
        decreases squares.len() - i,
    {
        actions.push(Action::MovePiece(piece, *from, squares[i]));
        i = i + 1;
    }
    actions
}

/// The capture by `piece` from `from` of what stands on each of `squares`.
pub fn as_captures(board: &Board, piece: Piece, from: &Coordinate, squares: &Vec<Coordinate>) -> (actions:
    Vec<Action>)
    requires
        all_in_bounds(squares@),
        forall|i: int| 0 <= i < squares@.len() ==> board.at(#[trigger] squares@[i]) is Some,
    ensures
        actions@ == captures_at(board@, piece, *from, squares@),
{
    let mut actions: Vec<Action> = Vec::new();
    let mut i: usize = 0;
    while i < squares.len()
        invariant
            i <= squares.len(),
            all_in_bounds(squares@),
            forall|i: int| 0 <= i < squares@.len() ==> board.at(#[trigger] squares@[i]) is Some,
            actions@ == captures_at(board@, piece, *from, squares@.take(i as int)),
        decreases squares.len() - i,
    {
        let c = squares[i];
        match *board.piece_at(c) {
            Some(taken) => {
                actions.push(Action::Capture(piece, taken, *from, c));
            },
            None => {},
        }
        i = i + 1;
    }
    actions
}

/// Whether each of `actions` starts on `from` and fits the cells.
pub open spec fn all_fit(cells: Seq<Option<Piece>>, from: Coordinate, actions: Seq<Action>) -> bool {
    forall|k: int|
        0 <= k < actions.len() ==> fits(cells, #[trigger] actions[k]) && actions[k].origin()
            == from
}

/// The moves and the captures that a stepping piece (pawn, knight or king)
/// makes out of its candidate squares start on its square and fit the cells,
/// and there are no more of either than there are candidates.
pub proof fn lemma_stepping_fits(
    cells: Seq<Option<Piece>>,
    from: Coordinate,
    candidates: Seq<Result<Coordinate, Error>>,
)
    requires
        from.in_bounds(),
        cells[cell_index(from)] is Some,
        forall|i: int|
            0 <= i < candidates.len() && candidates[i] is Ok ==> (#[trigger] candidates[i])->Ok_0.in_bounds(),
    ensures
        ({
            let piece = cells[cell_index(from)]->0;
            let quiet = moves_to(piece, from, vacant(cells, landed(candidates)));
            let taking = captures_at(
                cells,
                piece,
                from,
                hostile(cells, landed(candidates), piece.side_of()),
            );
            &&& all_fit(cells, from, quiet)
            &&& all_fit(cells, from, taking)
            &&& quiet.len() <= candidates.len()
            &&& taking.len() <= candidates.len()
        }),
{
    let piece = cells[cell_index(from)]->0;
    lemma_landed(candidates);
    lemma_vacant(cells, landed(candidates));
    lemma_hostile(cells, landed(candidates), piece.side_of());
}

} // verus!
