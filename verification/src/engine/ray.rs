//! Rays: how the pieces that slide (bishop, rook and queen) see the board.

use vstd::prelude::*;
use crate::Side;
use crate::action::Action;
use crate::board::{cell_index, Board, Coordinate};
use crate::engine::mover::{step, Direction, Mover};
use crate::engine::squares::{
    all_fit, all_in_bounds, all_vacant, as_captures, as_moves, captures_at, keep_present,
    lemma_present, moves_to, present,
};
use crate::error::Error;
use crate::game::GameState;
use crate::piece::Piece;

verus! {

/// The squares a sliding piece of `side` may still pass, starting one step
/// from `at` in `direction` and taking at most `budget` steps: the walk ends
/// before the first step that leaves the board or meets a piece.
pub open spec fn ray_from(
    cells: Seq<Option<Piece>>,
    at: Coordinate,
    side: Side,
    direction: Direction,
    budget: nat,
) -> Seq<Coordinate>
    decreases budget,
{
    if budget == 0 {
        Seq::empty()
    } else {
        match step(at, side, direction) {
            Ok(next) => if cells[cell_index(next)] is None {
                seq![next] + ray_from(cells, next, side, direction, (budget - 1) as nat)
            } else {
                Seq::empty()
            },
            Err(_) => Seq::empty(),
        }
    }
}

/// The empty squares that a sliding piece of `side` on `from` reaches in
/// `direction`, nearest first.
pub open spec fn ray(
    cells: Seq<Option<Piece>>,
    from: Coordinate,
    side: Side,
    direction: Direction,
) -> Seq<Coordinate> {
    ray_from(cells, from, side, direction, 7)
}

/// The first occupied square met from `at` in `direction` within `budget`
/// steps, if the walk meets one before it leaves the board.
pub open spec fn first_piece_from(
    cells: Seq<Option<Piece>>,
    at: Coordinate,
    side: Side,
    direction: Direction,
    budget: nat,
) -> Option<Coordinate>
    decreases budget,
{
    if budget == 0 {
        None
    } else {
        match step(at, side, direction) {
            Ok(next) => if cells[cell_index(next)] is Some {
                Some(next)
            } else {
                first_piece_from(cells, next, side, direction, (budget - 1) as nat)
            },
            Err(_) => None,
        }
    }
}

/// The square on which a sliding piece of `side` on `from` captures in
/// `direction`: the first occupied square of the ray, if a piece of the other
/// side stands on it.
pub open spec fn ray_capture(
    cells: Seq<Option<Piece>>,
    from: Coordinate,
    side: Side,
    direction: Direction,
) -> Option<Coordinate> {
    match first_piece_from(cells, from, side, direction, 7) {
        Some(c) => if cells[cell_index(c)]->0.side_of() != side {
            Some(c)
        } else {
            None
        },
        None => None,
    }
}

/// No square of a ray lies off the board or holds a piece, each square is
/// one step from the one before it, the first one step from the start, and a
/// ray is no longer than its budget: a ray never reaches beyond the first
/// occupied square in its direction.
pub proof fn lemma_ray_is_clear(
    cells: Seq<Option<Piece>>,
    at: Coordinate,
    side: Side,
    direction: Direction,
    budget: nat,
    i: int,
)
    requires
        0 <= i < ray_from(cells, at, side, direction, budget).len(),
    ensures
        ray_from(cells, at, side, direction, budget).len() <= budget,
        ray_from(cells, at, side, direction, budget)[i].in_bounds(),
        cells[cell_index(ray_from(cells, at, side, direction, budget)[i])] is None,
        step(
            if i == 0 {
                at
            } else {
                ray_from(cells, at, side, direction, budget)[i - 1]
            },
            side,
            direction,
        ) == Ok::<Coordinate, Error>(ray_from(cells, at, side, direction, budget)[i]),
    decreases budget,
{
    let next = step(at, side, direction)->Ok_0;
    let tail = ray_from(cells, next, side, direction, (budget - 1) as nat);
    if i > 0 {
        lemma_ray_is_clear(cells, next, side, direction, (budget - 1) as nat, i - 1);
    } else if tail.len() > 0 {
        lemma_ray_is_clear(cells, next, side, direction, (budget - 1) as nat, 0);
    }
}

/// Walks from `starting_coordinate` in `direction`, one square at a time and
/// at most seven times, and collects each square passed: the walk ends before
/// the first square that is occupied or off the board. So every square
/// returned is on the board and empty, each is one step from the one before
/// it, and none lies beyond the first occupied square of the ray.
pub fn find_moves_in_direction(
    starting_coordinate: &Coordinate,
    side: Side,
    board: &Board,
    direction: Direction,
) -> (squares: Vec<Coordinate>)
    requires
        starting_coordinate.in_bounds(),
    ensures
        squares@ == ray(board@, *starting_coordinate, side, direction),
        squares@.len() <= 7,
        forall|i: int|
            0 <= i < squares@.len() ==> (#[trigger] squares@[i]).in_bounds() && board.at(
                squares@[i],
            ) is None,
        forall|i: int|
            0 <= i < squares@.len() ==> step(
                if i == 0 {
                    *starting_coordinate
                } else {
                    squares@[i - 1]
                },
                side,
                direction,
            ) == Ok::<Coordinate, Error>(#[trigger] squares@[i]),
{
    let mut accumulator: Vec<Coordinate> = Vec::new();
    let mut current_coord = *starting_coordinate;
    let mut taken: usize = 0;
    while taken < 7
        invariant_except_break
            taken <= 7,
            current_coord.in_bounds(),
            accumulator@ + ray_from(board@, current_coord, side, direction, (7 - taken) as nat)
                == ray(board@, *starting_coordinate, side, direction),
        ensures
            accumulator@ == ray(board@, *starting_coordinate, side, direction),
        decreases 7 - taken,
    {
        let mover = direction.drive(Mover::new(side).move_to(&current_coord));
        match mover.make() {
            Ok(next) => {
                if board.is_empty(next) {
                    accumulator.push(next);
                    current_coord = next;
                } else {
                    break ;
                }
            },
            Err(_) => {
                break ;
            },
        }
        taken = taken + 1;
    }
    proof {
        assert forall|i: int| 0 <= i < accumulator@.len() implies (#[trigger] accumulator@[i]).in_bounds()
            && board.at(accumulator@[i]) is None by {
            lemma_ray_is_clear(board@, *starting_coordinate, side, direction, 7, i);
        }
        assert forall|i: int| 0 <= i < accumulator@.len() implies step(
            if i == 0 {
                *starting_coordinate
            } else {
                accumulator@[i - 1]
            },
            side,
            direction,
        ) == Ok::<Coordinate, Error>(#[trigger] accumulator@[i]) by {
            lemma_ray_is_clear(board@, *starting_coordinate, side, direction, 7, i);
        }
        if accumulator@.len() > 0 {
            lemma_ray_is_clear(board@, *starting_coordinate, side, direction, 7, 0);
        }
    }
    accumulator
}

/// Walks the same ray and returns the first occupied square, if and only if
/// a piece of the other side stands on it.
pub fn find_opposing_piece_in_direction(
    starting_coordinate: &Coordinate,
    side: Side,
    board: &Board,
    direction: Direction,
) -> (target: Option<Coordinate>)
    requires
        starting_coordinate.in_bounds(),
    ensures
        target == ray_capture(board@, *starting_coordinate, side, direction),
        target matches Some(c) ==> c.in_bounds() && board.at(c) is Some && board.at(
            c,
        )->0.side_of() != side,
{
    let mut current_coord = *starting_coordinate;
    let mut result: Option<Coordinate> = None;
    let mut taken: usize = 0;
    while taken < 7
        invariant_except_break
            taken <= 7,
            current_coord.in_bounds(),
            result is None,
            first_piece_from(board@, current_coord, side, direction, (7 - taken) as nat)
                == first_piece_from(board@, *starting_coordinate, side, direction, 7),
        ensures
            result == ray_capture(board@, *starting_coordinate, side, direction),
            result matches Some(c) ==> c.in_bounds() && board.at(c) is Some && board.at(
                c,
            )->0.side_of() != side,
        decreases 7 - taken,
    {
        let mover = direction.drive(Mover::new(side).move_to(&current_coord));
        match mover.make() {
            Ok(next) => {
                match *board.piece_at(next) {
                    Some(piece) => {
                        if piece.side() != side {
                            result = Some(next);
                        }
                        break ;
                    },
                    None => {},
                }
                current_coord = next;
            },
            Err(_) => {
                break ;
            },
        }
        taken = taken + 1;
    }
    result
}

/// The empty squares that a sliding piece of `side` on `from` reaches in
/// each of `directions`, direction by direction.
pub open spec fn sweep(
    cells: Seq<Option<Piece>>,
    from: Coordinate,
    side: Side,
    directions: Seq<Direction>,
) -> Seq<Coordinate>
    decreases directions.len(),
{
    if directions.len() == 0 {
        Seq::empty()
    } else {
        sweep(cells, from, side, directions.drop_last()) + ray(
            cells,
            from,
            side,
            directions.last(),
        )
    }
}

/// For each of `directions`, the square on which a sliding piece of `side`
/// on `from` captures in that direction, if there is one.
pub open spec fn ray_captures(
    cells: Seq<Option<Piece>>,
    from: Coordinate,
    side: Side,
    directions: Seq<Direction>,
) -> Seq<Option<Coordinate>> {
    Seq::new(directions.len(), |i: int| ray_capture(cells, from, side, directions[i]))
}

/// The moves of the sliding piece on `from`: onto every empty square that it
/// reaches in `directions`.
pub open spec fn sliding_moves(
    cells: Seq<Option<Piece>>,
    from: Coordinate,
    directions: Seq<Direction>,
) -> Seq<Action> {
    let piece = cells[cell_index(from)]->0;
    moves_to(piece, from, sweep(cells, from, piece.side_of(), directions))
}

/// The captures of the sliding piece on `from`: in each of `directions`, of
/// the first piece met, where it belongs to the other side.
pub open spec fn sliding_captures(
    cells: Seq<Option<Piece>>,
    from: Coordinate,
    directions: Seq<Direction>,
) -> Seq<Action> {
    let piece = cells[cell_index(from)]->0;
    captures_at(
        cells,
        piece,
        from,
        present(ray_captures(cells, from, piece.side_of(), directions)),
    )
}

/// Every square of a sweep lies on the board and is empty, and a sweep holds
/// at most seven squares for each direction.
pub proof fn lemma_sweep(
    cells: Seq<Option<Piece>>,
    from: Coordinate,
    side: Side,
    directions: Seq<Direction>,
)
    ensures
        sweep(cells, from, side, directions).len() <= 7 * directions.len(),
        all_in_bounds(sweep(cells, from, side, directions)),
        all_vacant(cells, sweep(cells, from, side, directions)),
    decreases directions.len(),
{
    if directions.len() > 0 {
        lemma_sweep(cells, from, side, directions.drop_last());
        let before = sweep(cells, from, side, directions.drop_last());
        let last = ray(cells, from, side, directions.last());
        if last.len() > 0 {
            lemma_ray_is_clear(cells, from, side, directions.last(), 7, 0);
        }
        assert forall|i: int| 0 <= i < (before + last).len() implies (#[trigger] (before
            + last)[i]).in_bounds() && cells[cell_index((before + last)[i])] is None by {
            if i >= before.len() {
                lemma_ray_is_clear(cells, from, side, directions.last(), 7, i - before.len());
            }
        }
    }
}

/// The first piece met on a ray stands on the board.
pub proof fn lemma_first_piece(
    cells: Seq<Option<Piece>>,
    at: Coordinate,
    side: Side,
    direction: Direction,
    budget: nat,
)
    ensures
        first_piece_from(cells, at, side, direction, budget) matches Some(c) ==> c.in_bounds()
            && cells[cell_index(c)] is Some,
    decreases budget,
{
    if budget > 0 {
        match step(at, side, direction) {
            Ok(next) => {
                lemma_first_piece(cells, next, side, direction, (budget - 1) as nat);
            },
            Err(_) => {},
        }
    }
}

/// The moves of the piece on `from` along each of `directions`.
pub fn slide_moves(from: &Coordinate, state: &GameState, directions: &Vec<Direction>) -> (found: Vec<
    Action,
>)
    requires
        from.in_bounds(),
        state@.cells[cell_index(*from)] is Some,
    ensures
        found@ == sliding_moves(state@.cells, *from, directions@),
{
    let piece = state.piece_at(*from).unwrap();
    let side = piece.side();
    let mut squares: Vec<Coordinate> = Vec::new();
    let mut i: usize = 0;
    while i < directions.len()
        invariant
            i <= directions.len(),
            from.in_bounds(),
            squares@ == sweep(state@.cells, *from, side, directions@.take(i as int)),
        decreases directions.len() - i,
    {
        proof {
            assert(directions@.take(i + 1).drop_last() =~= directions@.take(i as int));
        }
        let mut reached = find_moves_in_direction(from, side, state.board(), directions[i]);
        squares.append(&mut reached);
        i = i + 1;
    }
    proof {
        assert(directions@.take(directions.len() as int) =~= directions@);
    }
    as_moves(piece, from, &squares)
}

/// The captures of the piece on `from` along each of `directions`.
pub fn slide_captures(from: &Coordinate, state: &GameState, directions: &Vec<Direction>) -> (found:
    Vec<Action>)
    requires
        from.in_bounds(),
        state@.cells[cell_index(*from)] is Some,
    ensures
        found@ == sliding_captures(state@.cells, *from, directions@),
{
    let piece = state.piece_at(*from).unwrap();
    let side = piece.side();
    let mut targets: Vec<Option<Coordinate>> = Vec::new();
    let mut i: usize = 0;
    while i < directions.len()
        invariant
            i <= directions.len(),
            from.in_bounds(),
            targets@ == ray_captures(state@.cells, *from, side, directions@.take(i as int)),
        decreases directions.len() - i,
    {
        let target = find_opposing_piece_in_direction(from, side, state.board(), directions[i]);
        targets.push(target);
        i = i + 1;
    }
    proof {
        assert(directions@.take(directions.len() as int) =~= directions@);
        assert forall|k: int| 0 <= k < targets@.len() && targets@[k] is Some implies {
            &&& (#[trigger] targets@[k])->0.in_bounds()
            &&& state@.cells[cell_index(targets@[k]->0)] is Some
            &&& state@.cells[cell_index(targets@[k]->0)]->0.side_of() != side
        } by {
            lemma_first_piece(state@.cells, *from, side, directions@[k], 7);
        }
        lemma_present(state@.cells, targets@, side);
    }
    let squares = keep_present(&targets);
    as_captures(state.board(), piece, from, &squares)
}

/// The moves and the captures of a sliding piece start on its square and fit
/// the cells; it has at most seven moves and one capture for each direction.
pub proof fn lemma_sliding_fits(
    cells: Seq<Option<Piece>>,
    from: Coordinate,
    directions: Seq<Direction>,
)
    requires
        from.in_bounds(),
        cells[cell_index(from)] is Some,
    ensures
        all_fit(cells, from, sliding_moves(cells, from, directions)),
        all_fit(cells, from, sliding_captures(cells, from, directions)),
        sliding_moves(cells, from, directions).len() <= 7 * directions.len(),
        sliding_captures(cells, from, directions).len() <= directions.len(),
{
    let piece = cells[cell_index(from)]->0;
    let side = piece.side_of();
    lemma_sweep(cells, from, side, directions);
    let targets = ray_captures(cells, from, side, directions);
    assert forall|k: int| 0 <= k < targets.len() && targets[k] is Some implies {
        &&& (#[trigger] targets[k])->0.in_bounds()
        &&& cells[cell_index(targets[k]->0)] is Some
        &&& cells[cell_index(targets[k]->0)]->0.side_of() != side
    } by {
        lemma_first_piece(cells, from, side, directions[k], 7);
    }
    lemma_present(cells, targets, side);
}

} // verus!
