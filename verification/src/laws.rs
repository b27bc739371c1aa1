//! What holds of the search: pruning never changes the value found, and the
//! move returned is the first of the best ones.

use vstd::prelude::*;
use shakmaty::{Chess, Move};
use crate::eval::{lemma_evaluation_bounds, position_score, MAX_SCORE};
use crate::rules::{legal_moves_of, placement_of, successor_of, turn_of};
use crate::search::{
    agrees_within, beats, best_reply, first_best_reply, is_leaf, minimax, pick, pruned_scan,
    pruned_search, reply_value, walk_start, walk_step, worst, Walk,
};

verus! {

/// Whether a value lies on the far side of the window's near bound for the
/// side that is choosing: above `alpha` for the maximizing side, below `beta`
/// for the other.
pub open spec fn clears_near_bound(maximizing: bool, alpha: int, beta: int, found: int) -> bool {
    if maximizing {
        found > alpha
    } else {
        found < beta
    }
}

/// Whether a walk is under way in good order: its window is not empty and
/// lies within 32 bits, as does its value, and the value has not passed the
/// near bound of the window.
pub open spec fn walk_in_order(walk: Walk, maximizing: bool) -> bool {
    &&& i32::MIN <= walk.alpha < walk.beta <= i32::MAX
    &&& i32::MIN <= walk.value <= i32::MAX
    &&& maximizing ==> walk.value <= walk.alpha
    &&& !maximizing ==> walk.value >= walk.beta
}

/// The search goes on from a position exactly where depth is left and the
/// side to move has a legal move.
pub proof fn lemma_leaf_has_no_moves(pos: Chess, depth: nat)
    ensures
        is_leaf(pos, depth) <==> depth == 0 || legal_moves_of(pos).len() == 0,
{
}

/// A minimax value is the score of some position, so it lies within the
/// bounds of a score.
pub proof fn lemma_minimax_bounded(pos: Chess, depth: nat, maximizing: bool)
    ensures
        -MAX_SCORE <= minimax(pos, depth, maximizing) <= MAX_SCORE,
    decreases depth, 1int, 0int,
{
    if is_leaf(pos, depth) {
        lemma_evaluation_bounds(placement_of(pos), turn_of(pos));
    } else {
        lemma_best_reply_bounded(pos, depth, maximizing, 0);
    }
}

/// The best value among the moves from `from` up lies within the bounds of a
/// score, where there is such a move.
pub proof fn lemma_best_reply_bounded(pos: Chess, depth: nat, maximizing: bool, from: int)
    requires
        depth >= 1,
        0 <= from < legal_moves_of(pos).len(),
    ensures
        -MAX_SCORE <= best_reply(pos, depth, maximizing, from) <= MAX_SCORE,
    decreases depth, 0int, legal_moves_of(pos).len() - from,
{
    let moves = legal_moves_of(pos);
    lemma_minimax_bounded(successor_of(pos, moves[from]), (depth - 1) as nat, !maximizing);
    if from + 1 < moves.len() {
        lemma_best_reply_bounded(pos, depth, maximizing, from + 1);
    } else {
        assert(best_reply(pos, depth, maximizing, from + 1) == worst(maximizing));
    }
}

/// The pruned search returns a value within the bounds of a score, and a
/// move everywhere but at a leaf, whatever the window.
pub proof fn lemma_pruned_search_bounded(
    pos: Chess,
    depth: nat,
    alpha: int,
    beta: int,
    maximizing: bool,
)
    ensures
        -MAX_SCORE <= pruned_search(pos, depth, alpha, beta, maximizing).1 <= MAX_SCORE,
        pruned_search(pos, depth, alpha, beta, maximizing).0 is None <==> is_leaf(pos, depth),
    decreases depth, 1int, 0int,
{
    if is_leaf(pos, depth) {
        lemma_evaluation_bounds(placement_of(pos), turn_of(pos));
    } else {
        lemma_pruned_scan_bounded(pos, depth, 0, maximizing, walk_start(alpha, beta, maximizing));
    }
}

/// A walk ends with a move and with a value within the bounds of a score, if
/// it has found such a pair already or has a move left to look at before it
/// has found any.
pub proof fn lemma_pruned_scan_bounded(
    pos: Chess,
    depth: nat,
    from: int,
    maximizing: bool,
    walk: Walk,
)
    requires
        depth >= 1,
        0 <= from <= legal_moves_of(pos).len(),
        (from < legal_moves_of(pos).len() && walk.value == worst(maximizing)) || (walk.best
            is Some && -MAX_SCORE <= walk.value <= MAX_SCORE),
    ensures
        -MAX_SCORE <= pruned_scan(pos, depth, from, maximizing, walk).1 <= MAX_SCORE,
        pruned_scan(pos, depth, from, maximizing, walk).0 is Some,
    decreases depth, 0int, legal_moves_of(pos).len() - from,
{
    let moves = legal_moves_of(pos);
    if from < moves.len() {
        let child = successor_of(pos, moves[from]);
        lemma_pruned_search_bounded(child, (depth - 1) as nat, walk.alpha, walk.beta, !maximizing);
        let reply = pruned_search(child, (depth - 1) as nat, walk.alpha, walk.beta, !maximizing).1;
        let next = walk_step(walk, maximizing, moves[from], reply);
        if next.alpha < next.beta {
            lemma_pruned_scan_bounded(pos, depth, from + 1, maximizing, next);
        }
    }
}

/// A walk never ends with a value worse than the one it has, and where it
/// ends with that very value it also ends with the move it has: only a
/// strictly better value replaces the move.
pub proof fn lemma_scan_keeps_first(
    pos: Chess,
    depth: nat,
    from: int,
    maximizing: bool,
    walk: Walk,
)
    ensures
        !beats(maximizing, walk.value, pruned_scan(pos, depth, from, maximizing, walk).1),
        pruned_scan(pos, depth, from, maximizing, walk).1 == walk.value ==> pruned_scan(
            pos,
            depth,
            from,
            maximizing,
            walk,
        ).0 == walk.best,
    decreases legal_moves_of(pos).len() - from,
{
    let moves = legal_moves_of(pos);
    if !(depth == 0 || from < 0 || from >= moves.len()) {
        let child = successor_of(pos, moves[from]);
        let reply = pruned_search(child, (depth - 1) as nat, walk.alpha, walk.beta, !maximizing).1;
        let next = walk_step(walk, maximizing, moves[from], reply);
        if next.alpha < next.beta {
            lemma_scan_keeps_first(pos, depth, from + 1, maximizing, next);
        }
    }
}

/// Pruning within a window: for a window that is not empty, the value that
/// the pruned search returns agrees with the minimax value as far as the
/// window lets it.
pub proof fn lemma_window(pos: Chess, depth: nat, alpha: int, beta: int, maximizing: bool)
    requires
        i32::MIN <= alpha < beta <= i32::MAX,
    ensures
        agrees_within(
            alpha,
            beta,
            pruned_search(pos, depth, alpha, beta, maximizing).1,
            minimax(pos, depth, maximizing),
        ),
    decreases depth, 1int, 0int,
{
    if !is_leaf(pos, depth) {
        lemma_scan_window(pos, depth, 0, maximizing, walk_start(alpha, beta, maximizing));
        lemma_best_reply_bounded(pos, depth, maximizing, 0);
    }
}

/// Pruning within a window, for a walk: what the walk ends with agrees with
/// the better of the value it has and the best minimax value among the moves
/// it has yet to look at.
pub proof fn lemma_scan_window(pos: Chess, depth: nat, from: int, maximizing: bool, walk: Walk)
    requires
        depth >= 1,
        0 <= from <= legal_moves_of(pos).len(),
        walk_in_order(walk, maximizing),
    ensures
        agrees_within(
            walk.alpha,
            walk.beta,
            pruned_scan(pos, depth, from, maximizing, walk).1,
            pick(maximizing, best_reply(pos, depth, maximizing, from), walk.value),
        ),
    decreases depth, 0int, legal_moves_of(pos).len() - from,
{
    let moves = legal_moves_of(pos);
    if from < moves.len() {
        let child = successor_of(pos, moves[from]);
        lemma_window(child, (depth - 1) as nat, walk.alpha, walk.beta, !maximizing);
        lemma_pruned_search_bounded(child, (depth - 1) as nat, walk.alpha, walk.beta, !maximizing);
        let reply = pruned_search(child, (depth - 1) as nat, walk.alpha, walk.beta, !maximizing).1;
        let next = walk_step(walk, maximizing, moves[from], reply);
        if next.alpha < next.beta {
            lemma_scan_window(pos, depth, from + 1, maximizing, next);
            lemma_scan_keeps_first(pos, depth, from + 1, maximizing, next);
        }
    }
}

/// Which move a walk ends with. Where the value it ends with clears the near
/// bound of the window, the move is one of those it looked at, every move it
/// looked at before that one has a strictly worse minimax value, and the
/// value agrees with that move's minimax value as far as the window lets it.
/// Returns the number of that move.
pub proof fn lemma_scan_choice(
    pos: Chess,
    depth: nat,
    from: int,
    maximizing: bool,
    walk: Walk,
) -> (k: int)
    requires
        depth >= 1,
        0 <= from <= legal_moves_of(pos).len(),
        walk_in_order(walk, maximizing),
    ensures
        ({
            let end = pruned_scan(pos, depth, from, maximizing, walk);
            clears_near_bound(maximizing, walk.alpha, walk.beta, end.1) ==> {
                &&& from <= k < legal_moves_of(pos).len()
                &&& end.0 == Some(legal_moves_of(pos)[k])
                &&& agrees_within(
                    walk.alpha,
                    walk.beta,
                    end.1,
                    reply_value(pos, depth, maximizing, k),
                )
                &&& forall|j: int|
                    from <= j < k ==> beats(
                        maximizing,
                        end.1,
                        #[trigger] reply_value(pos, depth, maximizing, j),
                    )
            }
        }),
    decreases legal_moves_of(pos).len() - from,
{
    let moves = legal_moves_of(pos);
    if from < moves.len() {
        let child = successor_of(pos, moves[from]);
        lemma_window(child, (depth - 1) as nat, walk.alpha, walk.beta, !maximizing);
        lemma_pruned_search_bounded(child, (depth - 1) as nat, walk.alpha, walk.beta, !maximizing);
        let reply = pruned_search(child, (depth - 1) as nat, walk.alpha, walk.beta, !maximizing).1;
        let next = walk_step(walk, maximizing, moves[from], reply);
        if next.alpha < next.beta {
            let later = lemma_scan_choice(pos, depth, from + 1, maximizing, next);
            lemma_scan_keeps_first(pos, depth, from + 1, maximizing, next);
            let end = pruned_scan(pos, depth, from, maximizing, walk);
            if clears_near_bound(maximizing, next.alpha, next.beta, end.1) {
                assert(reply_value(pos, depth, maximizing, from) == minimax(
                    child,
                    (depth - 1) as nat,
                    !maximizing,
                ));
                later
            } else {
                from
            }
        } else {
            from
        }
    } else {
        from
    }
}

/// Pruning equivalence: searched with the full window, a position gets its
/// minimax value, whatever branches the pruning skipped.
pub proof fn lemma_full_window_is_minimax(pos: Chess, depth: nat, maximizing: bool)
    ensures
        pruned_search(pos, depth, i32::MIN as int, i32::MAX as int, maximizing).1 == minimax(
            pos,
            depth,
            maximizing,
        ),
{
    lemma_window(pos, depth, i32::MIN as int, i32::MAX as int, maximizing);
    lemma_minimax_bounded(pos, depth, maximizing);
    lemma_pruned_search_bounded(pos, depth, i32::MIN as int, i32::MAX as int, maximizing);
}

/// The tie-break: searched with the full window, a position that is no leaf
/// gets the first of its legal moves whose minimax value is the best one, so
/// that of two moves with the same value the one generated first is
/// returned. At a leaf no move is returned.
pub proof fn lemma_full_window_choice(pos: Chess, depth: nat, maximizing: bool)
    ensures
        ({
            let found = pruned_search(pos, depth, i32::MIN as int, i32::MAX as int, maximizing);
            &&& found.1 == minimax(pos, depth, maximizing)
            &&& found.0 is None <==> is_leaf(pos, depth)
            &&& found.0 matches Some(mv) ==> exists|k: int|
                #![trigger legal_moves_of(pos)[k]]
                first_best_reply(pos, depth, maximizing, k) && legal_moves_of(pos)[k] == mv
        }),
{
    let low = i32::MIN as int;
    let high = i32::MAX as int;
    lemma_full_window_is_minimax(pos, depth, maximizing);
    lemma_pruned_search_bounded(pos, depth, low, high, maximizing);
    if !is_leaf(pos, depth) {
        let k = lemma_scan_choice(pos, depth, 0, maximizing, walk_start(low, high, maximizing));
        lemma_minimax_bounded(
            successor_of(pos, legal_moves_of(pos)[k]),
            (depth - 1) as nat,
            !maximizing,
        );
        assert(first_best_reply(pos, depth, maximizing, k));
    }
}

/// The search is a function of its arguments: two runs on the same
/// position, depth, window and side return the same move and value.
pub proof fn lemma_search_deterministic(
    pos: Chess,
    depth: nat,
    alpha: int,
    beta: int,
    maximizing: bool,
    first: (Option<Move>, i32),
    second: (Option<Move>, i32),
)
    requires
        (first.0, first.1 as int) == pruned_search(pos, depth, alpha, beta, maximizing),
        (second.0, second.1 as int) == pruned_search(pos, depth, alpha, beta, maximizing),
    ensures
        first == second,
{
}

/// A leaf, be it for want of depth or by checkmate or stalemate, is scored
/// as it stands and yields no move, whatever the window.
pub proof fn lemma_leaf_is_scored(pos: Chess, depth: nat, alpha: int, beta: int, maximizing: bool)
    requires
        is_leaf(pos, depth),
    ensures
        pruned_search(pos, depth, alpha, beta, maximizing) == (None::<Move>, position_score(pos)),
        minimax(pos, depth, maximizing) == position_score(pos),
{
}

} // verus!
