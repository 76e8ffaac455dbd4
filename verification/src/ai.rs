//! The automated player: a fixed-depth negamax search with alpha-beta
//! pruning over a material and mobility evaluation.

use vstd::prelude::*;
use crate::Side;
use crate::action::Action;
use crate::board::{cell_index, lemma_occupied, occupied, Coordinate};
use crate::engine;
use crate::engine::{
    checkmated, has_king, legal, lemma_legal_fits, lemma_pseudo_legal_fits, pseudo_legal,
};
use crate::game::{fits, lemma_undo_restores, supported, GameState, GameView};
use crate::piece::{Piece, Rank};

verus! {

/// What a piece of `rank` is worth.
pub open spec fn rank_value(rank: Rank) -> int {
    match rank {
        Rank::Pawn => 1,
        Rank::Knight => 3,
        Rank::Bishop => 3,
        Rank::Rook => 5,
        Rank::Queen => 9,
        Rank::King => 1000,
    }
}

/// What `piece` is worth to `side`: the value of its rank, counted against
/// `side` where the piece belongs to the other side.
pub open spec fn worth(piece: Piece, side: Side) -> int {
    if piece.side_of() == side {
        rank_value(piece.rank_of())
    } else {
        -rank_value(piece.rank_of())
    }
}

/// What the pieces of `entries` are worth to `side`, taken together.
pub open spec fn material(entries: Seq<(Coordinate, Piece)>, side: Side) -> int
    decreases entries.len(),
{
    if entries.len() == 0 {
        0
    } else {
        material(entries.drop_last(), side) + worth(entries.last().1, side)
    }
}

/// The pseudo-legal actions of the pieces of `side` among `entries`, piece
/// by piece.
pub open spec fn actions_of(position: GameView, side: Side, entries: Seq<(Coordinate, Piece)>) -> Seq<
    Action,
>
    decreases entries.len(),
{
    if entries.len() == 0 {
        Seq::empty()
    } else {
        let before = actions_of(position, side, entries.drop_last());
        if entries.last().1.side_of() == side {
            before + pseudo_legal(position, entries.last().0)
        } else {
            before
        }
    }
}

/// Every pseudo-legal action of `side`, piece by piece in row-major order.
pub open spec fn side_actions(position: GameView, side: Side) -> Seq<Action> {
    actions_of(position, side, occupied(position.cells))
}

/// The static value of `position` to `side`: ten times the material, plus
/// the number of pseudo-legal actions that `side` has.
pub open spec fn static_value(position: GameView, side: Side) -> int {
    10 * material(occupied(position.cells), side) + side_actions(position, side).len()
}

/// Whether every move and capture among `actions` fits the cells.
pub open spec fn all_sound(cells: Seq<Option<Piece>>, actions: Seq<Action>) -> bool {
    forall|k: int| 0 <= k < actions.len() && (#[trigger] actions[k]).lands() ==> fits(
        cells,
        actions[k],
    )
}

/// The material of a list of pieces lies within a thousand for each piece.
pub proof fn lemma_material_bounded(entries: Seq<(Coordinate, Piece)>, side: Side)
    ensures
        -1000 * entries.len() <= material(entries, side) <= 1000 * entries.len(),
    decreases entries.len(),
{
    if entries.len() > 0 {
        lemma_material_bounded(entries.drop_last(), side);
    }
}

/// The actions gathered from a list of pieces that stand on the board fit
/// the cells, and there are at most 65 for each piece.
pub proof fn lemma_actions_of(position: GameView, side: Side, entries: Seq<(Coordinate, Piece)>)
    requires
        forall|j: int| 0 <= j < entries.len() ==> (#[trigger] entries[j]).0.in_bounds(),
    ensures
        actions_of(position, side, entries).len() <= 65 * entries.len(),
        all_sound(position.cells, actions_of(position, side, entries)),
    decreases entries.len(),
{
    if entries.len() > 0 {
        let shorter = entries.drop_last();
        lemma_actions_of(position, side, shorter);
        let before = actions_of(position, side, shorter);
        let from = entries.last().0;
        let added = pseudo_legal(position, from);
        if entries.last().1.side_of() == side {
            if added.len() > 0 {
                lemma_pseudo_legal_fits(position, from, 0);
            }
            assert forall|k: int| 0 <= k < (before + added).len() && (#[trigger] (before
                + added)[k]).lands() implies fits(position.cells, (before + added)[k]) by {
                if k >= before.len() {
                    lemma_pseudo_legal_fits(position, from, k - before.len());
                }
            }
        }
    }
}

/// Every pseudo-legal action of a side fits the cells, and a side has at
/// most 4160 of them.
pub proof fn lemma_side_actions(position: GameView, side: Side)
    requires
        position.cells.len() == 64,
    ensures
        side_actions(position, side).len() <= 4160,
        all_sound(position.cells, side_actions(position, side)),
        -64000 <= material(occupied(position.cells), side) <= 64000,
        -640000 <= static_value(position, side) <= 644160,
{
    lemma_occupied(position.cells, 64);
    lemma_actions_of(position, side, occupied(position.cells));
    lemma_material_bounded(occupied(position.cells), side);
}

/// What `piece` is worth to `my_side`.
pub fn evaluate_piece(piece: Piece, my_side: Side) -> (score: i32)
    ensures
        score == worth(piece, my_side),
{
    let score: i32 = match piece.rank() {
        Rank::Pawn => 1,
        Rank::Knight => 3,
        Rank::Bishop => 3,
        Rank::Rook => 5,
        Rank::Queen => 9,
        Rank::King => 1000,
    };
    if piece.side() == my_side {
        score
    } else {
        -score
    }
}

/// Every pseudo-legal action of `side`, piece by piece in row-major order.
pub fn possible_actions(state: &GameState, side: Side) -> (found: Vec<Action>)
    ensures
        found@ == side_actions(state@, side),
        found@.len() <= 4160,
{
    let entries = state.board().pieces_with_coordinates();
    proof {
        lemma_occupied(state@.cells, 64);
        lemma_side_actions(state@, side);
    }
    let mut found: Vec<Action> = Vec::new();
    let mut i: usize = 0;
    while i < entries.len()
        invariant
            i <= entries.len(),
            entries@ == occupied(state@.cells),
            forall|j: int| 0 <= j < entries@.len() ==> (#[trigger] entries@[j]).0.in_bounds(),
            found@ == actions_of(state@, side, entries@.take(i as int)),
        decreases entries.len() - i,
    {
        proof {
            assert(entries@.take(i + 1).drop_last() =~= entries@.take(i as int));
        }
        let (coordinate, piece) = entries[i];
        if piece.side() == side {
            let mut actions = engine::enumerate_all_actions(&coordinate, state);
            found.append(&mut actions);
        }
        i = i + 1;
    }
    proof {
        assert(entries@.take(entries.len() as int) =~= entries@);
    }
    found
}

/// The static value of the position to `my_side`.
pub fn evaluate_board(state: &GameState, my_side: Side) -> (score: i32)
    ensures
        score == static_value(state@, my_side),
        -640000 <= score <= 644160,
{
    let entries = state.board().pieces_with_coordinates();
    proof {
        lemma_occupied(state@.cells, 64);
    }
    let mut material_score: i32 = 0;
    let mut i: usize = 0;
    while i < entries.len()
        invariant
            i <= entries.len(),
            entries@.len() <= 64,
            material_score == material(entries@.take(i as int), my_side),
            -1000 * i <= material_score <= 1000 * i,
        decreases entries.len() - i,
    {
        proof {
            assert(entries@.take(i + 1).drop_last() =~= entries@.take(i as int));
        }
        material_score = material_score + evaluate_piece(entries[i].1, my_side);
        i = i + 1;
    }
    proof {
        assert(entries@.take(entries.len() as int) =~= entries@);
    }
    let mobility_score = possible_actions(state, my_side).len() as i32;
    10 * material_score + mobility_score
}

/// No score of the search exceeds this bound in either direction.
pub const SCORE_LIMIT: i32 = 700_000;

/// The score below every score of a position: where a side's best reply
/// starts before any action is tried.
pub const SCORE_FLOOR: i32 = -2_147_483_647;

/// How many plies the search looks ahead below each root action.
pub const SEARCH_DEPTH: u8 = 4;

/// The negamax value of `position` to the side to move, `depth` plies deep:
/// the static value less `depth` where `depth` is 0 or the side has no move
/// and no capture (so that an end reached early counts for less); otherwise
/// the greatest, over the moves and captures of the side to move, of the
/// negated value of the position that the action leads to, one ply less
/// deep.
pub open spec fn negamax(position: GameView, depth: nat) -> int
    decreases depth, 1int, 0nat,
{
    let tried = candidates(position);
    if depth == 0 || tried.len() == 0 {
        static_value(position, position.next_to_move) - depth
    } else {
        best_reply(position, tried, depth)
    }
}

/// The greatest, over `actions`, of the negated negamax value of the
/// position that the action leads to, `depth - 1` plies deep; `SCORE_FLOOR`
/// where there is no action.
pub open spec fn best_reply(position: GameView, actions: Seq<Action>, depth: nat) -> int
    decreases depth, 0int, actions.len(),
{
    if depth == 0 || actions.len() == 0 {
        SCORE_FLOOR as int
    } else {
        let before = best_reply(position, actions.drop_last(), depth);
        let value = -negamax(position.after(actions.last()), (depth - 1) as nat);
        if value > before {
            value
        } else {
            before
        }
    }
}

/// The captures among `actions` where `capturing` holds, the moves among
/// them where it does not, in order.
pub open spec fn chosen(actions: Seq<Action>, capturing: bool) -> Seq<Action>
    decreases actions.len(),
{
    if actions.len() == 0 {
        Seq::empty()
    } else {
        let before = chosen(actions.drop_last(), capturing);
        if of_kind(actions.last(), capturing) {
            before.push(actions.last())
        } else {
            before
        }
    }
}

/// Whether `action` is a capture, where `capturing` holds, or a move, where
/// it does not.
pub open spec fn of_kind(action: Action, capturing: bool) -> bool {
    if capturing {
        action is Capture
    } else {
        action is MovePiece
    }
}

/// The moves and captures among `actions`, the captures first and the order
/// otherwise kept. Any other action is left out.
pub open spec fn captures_first(actions: Seq<Action>) -> Seq<Action> {
    chosen(actions, true) + chosen(actions, false)
}

/// The actions that the search tries for the side to move: its pseudo-legal
/// moves and captures, the captures first. Castling, which no position can
/// be reached by, is not tried.
pub open spec fn candidates(position: GameView) -> Seq<Action> {
    captures_first(side_actions(position, position.next_to_move))
}

/// Negamax values lie within `SCORE_LIMIT`.
pub proof fn lemma_negamax_bounded(position: GameView, depth: nat)
    requires
        position.cells.len() == 64,
        depth <= 255,
    ensures
        -SCORE_LIMIT <= negamax(position, depth) <= SCORE_LIMIT,
    decreases depth, 1int, 0nat,
{
    lemma_side_actions(position, position.next_to_move);
    let tried = candidates(position);
    if !(depth == 0 || tried.len() == 0) {
        lemma_best_reply_bounded(position, tried, depth);
    }
}

/// A best reply is never below `SCORE_FLOOR`, and lies within `SCORE_LIMIT`
/// where there is an action to reply with.
pub proof fn lemma_best_reply_bounded(position: GameView, actions: Seq<Action>, depth: nat)
    requires
        position.cells.len() == 64,
        depth <= 255,
    ensures
        SCORE_FLOOR <= best_reply(position, actions, depth) <= SCORE_LIMIT,
        depth > 0 && actions.len() > 0 ==> -SCORE_LIMIT <= best_reply(position, actions, depth),
    decreases depth, 0int, actions.len(),
{
    if !(depth == 0 || actions.len() == 0) {
        lemma_best_reply_bounded(position, actions.drop_last(), depth);
        lemma_negamax_bounded(position.after(actions.last()), (depth - 1) as nat);
    }
}

/// A best reply is at least as good as each reply.
pub proof fn lemma_best_reply_dominates(
    position: GameView,
    actions: Seq<Action>,
    depth: nat,
    i: int,
)
    requires
        depth > 0,
        0 <= i < actions.len(),
    ensures
        best_reply(position, actions, depth) >= -negamax(
            position.after(actions[i]),
            (depth - 1) as nat,
        ),
    decreases actions.len(),
{
    if i < actions.len() - 1 {
        lemma_best_reply_dominates(position, actions.drop_last(), depth, i);
    }
}

/// A best reply is the value of one of the replies, or `SCORE_FLOOR`.
pub proof fn lemma_best_reply_attained(position: GameView, actions: Seq<Action>, depth: nat)
    ensures
        best_reply(position, actions, depth) == SCORE_FLOOR || exists|i: int|
            0 <= i < actions.len() && best_reply(position, actions, depth) == -negamax(
                position.after(#[trigger] actions[i]),
                (depth - 1) as nat,
            ),
    decreases actions.len(),
{
    if !(depth == 0 || actions.len() == 0) {
        let shorter = actions.drop_last();
        lemma_best_reply_attained(position, shorter, depth);
    }
}

/// The best reply among some actions is no better than the best reply among
/// actions that include them.
pub proof fn lemma_best_reply_grows(
    position: GameView,
    fewer: Seq<Action>,
    more: Seq<Action>,
    depth: nat,
)
    requires
        position.cells.len() == 64,
        0 < depth <= 255,
        forall|i: int| 0 <= i < fewer.len() ==> more.contains(#[trigger] fewer[i]),
    ensures
        best_reply(position, fewer, depth) <= best_reply(position, more, depth),
{
    lemma_best_reply_attained(position, fewer, depth);
    lemma_best_reply_bounded(position, more, depth);
    if best_reply(position, fewer, depth) != SCORE_FLOOR {
        let i = choose|i: int|
            0 <= i < fewer.len() && best_reply(position, fewer, depth) == -negamax(
                position.after(#[trigger] fewer[i]),
                (depth - 1) as nat,
            );
        let j = choose|j: int| 0 <= j < more.len() && more[j] == fewer[i];
        lemma_best_reply_dominates(position, more, depth, j);
    }
}

/// `chosen` keeps only actions that it was given and that are of the kind
/// asked for, and keeps each action of that kind.
pub proof fn lemma_chosen(actions: Seq<Action>, capturing: bool)
    ensures
        chosen(actions, capturing).len() <= actions.len(),
        forall|k: int|
            0 <= k < chosen(actions, capturing).len() ==> actions.contains(
                #[trigger] chosen(actions, capturing)[k],
            ),
        forall|k: int|
            0 <= k < chosen(actions, capturing).len() ==> of_kind(
                #[trigger] chosen(actions, capturing)[k],
                capturing,
            ),
        forall|i: int|
            0 <= i < actions.len() && of_kind(#[trigger] actions[i], capturing) ==> chosen(
                actions,
                capturing,
            ).contains(actions[i]),
    decreases actions.len(),
{
    if actions.len() > 0 {
        let shorter = actions.drop_last();
        lemma_chosen(shorter, capturing);
        let kept = chosen(actions, capturing);
        assert forall|i: int|
            0 <= i < actions.len() && of_kind(#[trigger] actions[i], capturing) implies kept.contains(
            actions[i],
        ) by {
            if i < shorter.len() {
                let k = choose|k: int|
                    0 <= k < chosen(shorter, capturing).len() && chosen(shorter, capturing)[k]
                        == shorter[i];
                assert(kept[k] == actions[i]);
            } else {
                assert(kept[kept.len() - 1] == actions[i]);
            }
        }
    }
}

/// Every action of `captures_first` is a move or a capture among those
/// given, and every move and capture given is there.
pub proof fn lemma_captures_first(actions: Seq<Action>)
    ensures
        forall|k: int|
            0 <= k < captures_first(actions).len() ==> actions.contains(
                #[trigger] captures_first(actions)[k],
            ) && captures_first(actions)[k].lands(),
        forall|i: int|
            0 <= i < actions.len() && (#[trigger] actions[i]).lands() ==> captures_first(
                actions,
            ).contains(actions[i]),
{
    lemma_chosen(actions, true);
    lemma_chosen(actions, false);
    let front = chosen(actions, true);
    let back = chosen(actions, false);
    assert forall|k: int| 0 <= k < (front + back).len() implies actions.contains(
        #[trigger] (front + back)[k],
    ) && (front + back)[k].lands() by {
        if k < front.len() {
            assert(of_kind(front[k], true));
        } else {
            assert(of_kind(back[k - front.len()], false));
        }
    }
    assert forall|i: int| 0 <= i < actions.len() && (#[trigger] actions[i]).lands() implies captures_first(
        actions,
    ).contains(actions[i]) by {
        if actions[i] is Capture {
            assert(of_kind(actions[i], true));
            let k = choose|k: int| 0 <= k < front.len() && front[k] == actions[i];
            assert((front + back)[k] == actions[i]);
        } else {
            assert(of_kind(actions[i], false));
            let k = choose|k: int| 0 <= k < back.len() && back[k] == actions[i];
            assert((front + back)[front.len() + k] == actions[i]);
        }
    }
}

/// The moves and captures among `actions`, the captures first and the order
/// otherwise kept.
pub fn order_captures_first(actions: &Vec<Action>) -> (ordered: Vec<Action>)
    ensures
        ordered@ == captures_first(actions@),
{
    let mut front: Vec<Action> = Vec::new();
    let mut back: Vec<Action> = Vec::new();
    let mut i: usize = 0;
    while i < actions.len()
        invariant
            i <= actions.len(),
            front@ == chosen(actions@.take(i as int), true),
            back@ == chosen(actions@.take(i as int), false),
        decreases actions.len() - i,
    {
        proof {
            assert(actions@.take(i + 1).drop_last() =~= actions@.take(i as int));
        }
        match actions[i] {
            Action::Capture(_, _, _, _) => {
                front.push(actions[i]);
            },
            Action::MovePiece(_, _, _) => {
                back.push(actions[i]);
            },
            _ => {},
        }
        i = i + 1;
    }
    proof {
        assert(actions@.take(actions.len() as int) =~= actions@);
    }
    front.append(&mut back);
    front
}

/// The score of the pruned search `depth` plies below `position`, inside
/// the window from `alpha` to `beta`: the static value less `depth` where
/// `depth` is 0 or the side to move has no move and no capture; otherwise
/// what scanning the moves and captures of the side to move gives, captures
/// first.
pub open spec fn pruned(position: GameView, depth: nat, alpha: int, beta: int) -> int
    decreases depth, 1int, 0nat,
{
    let tried = candidates(position);
    if depth == 0 || tried.len() == 0 {
        static_value(position, position.next_to_move) - depth
    } else {
        scan(position, tried, depth, alpha, beta, SCORE_FLOOR as int)
    }
}

/// The score of a scan through `rest`, entered with the best score so far
/// and the lower edge `low` of the window: each action is valued by the
/// negated pruned search of the position that it leads to, one ply less deep
/// and inside the negated window; the greatest value so far is the score,
/// the lower edge rises with it, and the scan ends at once where the score
/// reaches `beta`.
pub open spec fn scan(
    position: GameView,
    rest: Seq<Action>,
    depth: nat,
    low: int,
    beta: int,
    score: int,
) -> int
    decreases depth, 0int, rest.len(),
{
    if depth == 0 || rest.len() == 0 {
        score
    } else {
        let value = -pruned(position.after(rest[0]), (depth - 1) as nat, -beta, -low);
        let best = if value > score {
            value
        } else {
            score
        };
        if best >= beta {
            best
        } else {
            scan(
                position,
                rest.drop_first(),
                depth,
                if best > low {
                    best
                } else {
                    low
                },
                beta,
                best,
            )
        }
    }
}

/// Searches `depth` plies below the position for the value of the side to
/// move, inside the window from `alpha` to `beta`, and returns the score of
/// the pruned search. A score strictly inside the window is the negamax
/// value; a score at or below `alpha` is an upper bound on it, a score at or
/// above `beta` a lower bound. The position is left as it was.
pub fn alpha_beta(depth: u8, state: &mut GameState, my_side: Side, alpha: i32, beta: i32) -> (score:
    i32)
    requires
        i32::MIN < alpha < beta,
    ensures
        final(state)@ == old(state)@,
        score == pruned(old(state)@, depth as nat, alpha as int, beta as int),
        -SCORE_LIMIT <= score <= SCORE_LIMIT,
        score <= alpha ==> negamax(old(state)@, depth as nat) <= score,
        alpha < score < beta ==> negamax(old(state)@, depth as nat) == score,
        score >= beta ==> negamax(old(state)@, depth as nat) >= score,
    decreases depth,
{
    let ghost position = state@;
    let next_to_move = state.next_to_move();
    let actions = possible_actions(state, next_to_move);
    let ordered = order_captures_first(&actions);
    proof {
        state.lemma_cells();
        lemma_side_actions(position, next_to_move);
        lemma_captures_first(actions@);
    }
    if depth == 0 || ordered.is_empty() {
        return evaluate_board(state, next_to_move) - depth as i32;
    }
    let mut score: i32 = i32::MIN + 1;
    let mut low: i32 = alpha;
    let mut k: usize = 0;
    proof {
        assert(ordered@.skip(0) =~= ordered@);
    }
    while k < ordered.len()
        invariant_except_break
            k <= ordered.len(),
            SCORE_FLOOR <= score < beta,
            low == (if score > alpha {
                score
            } else {
                alpha
            }),
            k == 0 ==> score == SCORE_FLOOR,
            k > 0 ==> -SCORE_LIMIT <= score <= SCORE_LIMIT,
            score <= alpha ==> best_reply(position, ordered@.take(k as int), depth as nat)
                <= score,
            alpha < score ==> best_reply(position, ordered@.take(k as int), depth as nat)
                == score,
            scan(position, ordered@.skip(k as int), depth as nat, low as int, beta as int, score as int)
                == scan(
                position,
                ordered@,
                depth as nat,
                alpha as int,
                beta as int,
                SCORE_FLOOR as int,
            ),
        invariant
            state@ == position,
            position.cells.len() == 64,
            depth > 0,
            ordered@.len() > 0,
            i32::MIN < alpha < beta,
            all_sound(position.cells, actions@),
            forall|j: int|
                0 <= j < ordered@.len() ==> actions@.contains(#[trigger] ordered@[j])
                    && ordered@[j].lands(),
            k == ordered@.len() ==> ordered@.take(k as int) == ordered@,
        ensures
            score == scan(
                position,
                ordered@,
                depth as nat,
                alpha as int,
                beta as int,
                SCORE_FLOOR as int,
            ),
            -SCORE_LIMIT <= score <= SCORE_LIMIT,
            score <= alpha ==> best_reply(position, ordered@, depth as nat) <= score,
            alpha < score < beta ==> best_reply(position, ordered@, depth as nat) == score,
            score >= beta ==> best_reply(position, ordered@, depth as nat) >= score,
        decreases ordered.len() - k,
    {
        let action = ordered[k];
        proof {
            assert(ordered@.take(k + 1).drop_last() =~= ordered@.take(k as int));
            assert(ordered@.skip(k as int).drop_first() =~= ordered@.skip(k + 1));
            assert(fits(position.cells, action));
            lemma_undo_restores(position, action);
        }
        state.advance(action).unwrap();
        let value = -alpha_beta(depth - 1, state, my_side, -beta, -low);
        state.undo().unwrap();
        if value > score {
            score = value;
        }
        if score > low {
            low = score;
        }
        k = k + 1;
        if score >= beta {
            proof {
                assert forall|i: int| 0 <= i < ordered@.take(k as int).len() implies ordered@.contains(
                    #[trigger] ordered@.take(k as int)[i],
                ) by {}
                lemma_best_reply_grows(position, ordered@.take(k as int), ordered@, depth as nat);
            }
            break ;
        }
    }
    score
}

/// What the action is worth to the side that takes it at the root of the
/// search: the negated negamax value, `SEARCH_DEPTH` plies deep, of the
/// position that it leads to.
pub open spec fn root_value(position: GameView, action: Action) -> int {
    -negamax(position.after(action), SEARCH_DEPTH as nat)
}

/// Whether `action` is the last of `candidates` whose `root_value` none of
/// them exceeds.
pub open spec fn is_last_best(position: GameView, candidates: Seq<Action>, action: Action) -> bool {
    exists|i: int|
        0 <= i < candidates.len() && #[trigger] candidates[i] == action && (forall|j: int|
            0 <= j < candidates.len() ==> root_value(position, #[trigger] candidates[j])
                <= root_value(position, action)) && (forall|j: int|
            i < j < candidates.len() ==> root_value(position, #[trigger] candidates[j])
                < root_value(position, action))
}

/// Whether `action` is a legal action of a piece of `side` that stands on
/// the board.
pub open spec fn legal_for(position: GameView, side: Side, action: Action) -> bool {
    exists|from: Coordinate|
        from.in_bounds() && position.cells[cell_index(from)] is Some && position.cells[cell_index(
            from,
        )]->0.side_of() == side && (#[trigger] legal(position, from)).contains(action)
}

/// A legal action of a piece that stands on the board is a move or a
/// capture that fits the cells, so `advance` applies it.
pub proof fn lemma_legal_for_fits(position: GameView, side: Side, action: Action)
    requires
        legal_for(position, side, action),
    ensures
        action.lands(),
        fits(position.cells, action),
        supported(action),
{
    let from = choose|from: Coordinate|
        from.in_bounds() && position.cells[cell_index(from)] is Some && position.cells[cell_index(
            from,
        )]->0.side_of() == side && (#[trigger] legal(position, from)).contains(action);
    let k = choose|k: int| 0 <= k < legal(position, from).len() && legal(position, from)[k] == action;
    lemma_legal_fits(position, from, k);
}

/// Whether a piece of `side` stands on the board.
pub open spec fn owns_piece(cells: Seq<Option<Piece>>, side: Side) -> bool {
    exists|c: Coordinate|
        c.in_bounds() && (#[trigger] cells[cell_index(c)]) is Some && cells[cell_index(
            c,
        )]->0.side_of() == side
}

/// The legal actions of the pieces of `side` among `entries`, piece by
/// piece.
pub open spec fn legal_of(position: GameView, side: Side, entries: Seq<(Coordinate, Piece)>) -> Seq<
    Action,
>
    decreases entries.len(),
{
    if entries.len() == 0 {
        Seq::empty()
    } else {
        let before = legal_of(position, side, entries.drop_last());
        if entries.last().1.side_of() == side {
            before + legal(position, entries.last().0)
        } else {
            before
        }
    }
}

/// Every legal action of `side`, piece by piece in row-major order.
pub open spec fn side_legal(position: GameView, side: Side) -> Seq<Action> {
    legal_of(position, side, occupied(position.cells))
}

/// Every action gathered from the legal actions of pieces that stand on the
/// board is a legal action of one of those pieces of `side` and fits the
/// cells; there is none exactly where none of those pieces has a legal
/// action.
pub proof fn lemma_legal_of(position: GameView, side: Side, entries: Seq<(Coordinate, Piece)>)
    requires
        forall|j: int|
            0 <= j < entries.len() ==> (#[trigger] entries[j]).0.in_bounds()
                && position.cells[cell_index(entries[j].0)] == Some(entries[j].1),
    ensures
        forall|k: int|
            0 <= k < legal_of(position, side, entries).len() ==> legal_for(
                position,
                side,
                #[trigger] legal_of(position, side, entries)[k],
            ) && fits(position.cells, legal_of(position, side, entries)[k]),
        legal_of(position, side, entries).len() == 0 <==> forall|j: int|
            0 <= j < entries.len() && (#[trigger] entries[j]).1.side_of() == side ==> legal(
                position,
                entries[j].0,
            ).len() == 0,
    decreases entries.len(),
{
    if entries.len() > 0 {
        let shorter = entries.drop_last();
        lemma_legal_of(position, side, shorter);
        let before = legal_of(position, side, shorter);
        let from = entries.last().0;
        let added = legal(position, from);
        let all = legal_of(position, side, entries);
        assert forall|j: int| 0 <= j < shorter.len() implies shorter[j] == entries[j] by {}
        if entries.last().1.side_of() == side {
            assert forall|k: int| 0 <= k < all.len() implies legal_for(
                position,
                side,
                #[trigger] all[k],
            ) && fits(position.cells, all[k]) by {
                if k >= before.len() {
                    assert(added[k - before.len()] == all[k]);
                    assert(legal(position, from).contains(all[k]));
                    lemma_legal_fits(position, from, k - before.len());
                } else {
                    assert(before[k] == all[k]);
                }
            }
        }
        if all.len() == 0 {
            assert forall|j: int|
                0 <= j < entries.len() && (#[trigger] entries[j]).1.side_of() == side implies legal(
                position,
                entries[j].0,
            ).len() == 0 by {
                if j < shorter.len() {
                    assert(shorter[j] == entries[j]);
                }
            }
        } else {
            if before.len() > 0 {
                let j = choose|j: int|
                    0 <= j < shorter.len() && (#[trigger] shorter[j]).1.side_of() == side && legal(
                        position,
                        shorter[j].0,
                    ).len() != 0;
                assert(entries[j] == shorter[j]);
            } else {
                assert(entries[entries.len() - 1].1.side_of() == side);
            }
        }
    }
}

/// Every legal action of a side is a legal action of one of its pieces and
/// fits the cells; the side has none exactly where it is checkmated.
pub proof fn lemma_side_legal(position: GameView, side: Side)
    requires
        position.cells.len() == 64,
    ensures
        forall|k: int|
            0 <= k < side_legal(position, side).len() ==> legal_for(
                position,
                side,
                #[trigger] side_legal(position, side)[k],
            ) && fits(position.cells, side_legal(position, side)[k]),
        side_legal(position, side).len() == 0 <==> checkmated(position, side),
{
    let entries = occupied(position.cells);
    lemma_occupied(position.cells, 64);
    lemma_legal_of(position, side, entries);
    if side_legal(position, side).len() == 0 {
        assert forall|c: Coordinate|
            c.in_bounds() && position.cells[cell_index(c)] is Some && position.cells[cell_index(
                c,
            )]->0.side_of() == side implies (#[trigger] legal(position, c)).len() == 0 by {
            let j = choose|j: int|
                0 <= j < entries.len() && #[trigger] entries[j] == (
                    c,
                    position.cells[cell_index(c)]->0,
                );
            assert(entries[j].1.side_of() == side);
        }
    }
    if checkmated(position, side) {
        assert forall|j: int|
            0 <= j < entries.len() && (#[trigger] entries[j]).1.side_of() == side implies legal(
            position,
            entries[j].0,
        ).len() == 0 by {
            assert(position.cells[cell_index(entries[j].0)] == Some(entries[j].1));
        }
    }
}

/// Every legal action of `side`, piece by piece in row-major order. Where
/// `side` has a piece, its king must stand on the board. The position is
/// left as it was.
pub fn legal_actions(state: &mut GameState, side: Side) -> (found: Vec<Action>)
    requires
        owns_piece(old(state)@.cells, side) ==> has_king(old(state)@.cells, side),
    ensures
        final(state)@ == old(state)@,
        found@ == side_legal(old(state)@, side),
{
    let entries = state.board().pieces_with_coordinates();
    proof {
        lemma_occupied(state@.cells, 64);
    }
    let mut found: Vec<Action> = Vec::new();
    let mut i: usize = 0;
    while i < entries.len()
        invariant
            i <= entries.len(),
            state@ == old(state)@,
            owns_piece(state@.cells, side) ==> has_king(state@.cells, side),
            entries@ == occupied(state@.cells),
            forall|j: int|
                0 <= j < entries@.len() ==> (#[trigger] entries@[j]).0.in_bounds()
                    && state@.cells[cell_index(entries@[j].0)] == Some(entries@[j].1),
            found@ == legal_of(state@, side, entries@.take(i as int)),
        decreases entries.len() - i,
    {
        proof {
            assert(entries@.take(i + 1).drop_last() =~= entries@.take(i as int));
        }
        let (coordinate, piece) = entries[i];
        if piece.side() == side {
            proof {
                assert(state@.cells[cell_index(coordinate)] == Some(piece));
                assert(owns_piece(state@.cells, side));
            }
            let mut actions = engine::possible_actions(&coordinate, state);
            found.append(&mut actions);
        }
        i = i + 1;
    }
    proof {
        assert(entries@.take(entries.len() as int) =~= entries@);
    }
    found
}

/// Picks an action for the side to move: among its legal actions, the one of
/// greatest `root_value`, the last of them where several are equally good,
/// and none where the side is checkmated, that is, has no legal action.
/// Where the side to move has a piece, its king must stand on the board. The
/// position is left as it was.
pub fn make_move(state: &mut GameState) -> (picked: Option<Action>)
    requires
        owns_piece(old(state)@.cells, old(state)@.next_to_move) ==> has_king(
            old(state)@.cells,
            old(state)@.next_to_move,
        ),
    ensures
        final(state)@ == old(state)@,
        picked is None <==> checkmated(old(state)@, old(state)@.next_to_move),
        picked matches Some(action) ==> legal_for(
            old(state)@,
            old(state)@.next_to_move,
            action,
        ) && is_last_best(
            old(state)@,
            side_legal(old(state)@, old(state)@.next_to_move),
            action,
        ),
{
    root_alpha_beta(state)
}

/// The search at the root: tries each legal action of the side to move,
/// values the position it leads to by `alpha_beta` with the widest window,
/// and keeps the last action of the greatest value.
pub fn root_alpha_beta(state: &mut GameState) -> (picked: Option<Action>)
    requires
        owns_piece(old(state)@.cells, old(state)@.next_to_move) ==> has_king(
            old(state)@.cells,
            old(state)@.next_to_move,
        ),
    ensures
        final(state)@ == old(state)@,
        picked is None <==> checkmated(old(state)@, old(state)@.next_to_move),
        picked matches Some(action) ==> legal_for(
            old(state)@,
            old(state)@.next_to_move,
            action,
        ) && is_last_best(
            old(state)@,
            side_legal(old(state)@, old(state)@.next_to_move),
            action,
        ),
{
    let ghost position = state@;
    let side = state.next_to_move();
    let candidates = legal_actions(state, side);
    proof {
        state.lemma_cells();
        lemma_side_legal(position, side);
    }
    let mut picked: Option<Action> = None;
    let mut best: i32 = 0;
    let ghost mut at: int = 0;
    let mut k: usize = 0;
    while k < candidates.len()
        invariant
            k <= candidates.len(),
            state@ == position,
            position.cells.len() == 64,
            forall|j: int|
                0 <= j < candidates@.len() ==> fits(position.cells, #[trigger] candidates@[j]),
            k == 0 <==> picked is None,
            k > 0 ==> 0 <= at < k && picked == Some(candidates@[at]) && best == root_value(
                position,
                candidates@[at],
            ),
            forall|j: int|
                0 <= j < k ==> root_value(position, #[trigger] candidates@[j]) <= best,
            forall|j: int|
                at < j < k ==> root_value(position, #[trigger] candidates@[j]) < best,
        decreases candidates.len() - k,
    {
        let action = candidates[k];
        proof {
            lemma_undo_restores(position, action);
        }
        state.advance(action).unwrap();
        let value = -alpha_beta(SEARCH_DEPTH, state, side, i32::MIN + 1, i32::MAX);
        state.undo().unwrap();
        if k == 0 || value >= best {
            picked = Some(action);
            best = value;
            proof {
                at = k as int;
            }
        }
        k = k + 1;
    }
    picked
}

} // verus!
