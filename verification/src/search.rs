//! Depth-limited minimax search with alpha-beta pruning.

use vstd::prelude::*;
use shakmaty::{Chess, Move};
use crate::eval::{evaluate_pos, position_score, MAX_SCORE};
use crate::laws::{lemma_full_window_choice, lemma_pruned_search_bounded, lemma_window};
use crate::rules::{
    checkmate_in, is_checkmate, is_stalemate, legal_moves, legal_moves_of, play_unchecked,
    stalemate_in, successor_of,
};

verus! {

/// Whether the search stops at a position: no depth is left, or the game is
/// over by checkmate or stalemate.
pub open spec fn is_leaf(pos: Chess, depth: nat) -> bool {
    depth == 0 || checkmate_in(pos) || stalemate_in(pos)
}

/// The score that a side starts from before it has looked at any move: the
/// lowest score there is for the maximizing side, the highest for the other.
pub open spec fn worst(maximizing: bool) -> int {
    if maximizing {
        i32::MIN as int
    } else {
        i32::MAX as int
    }
}

/// Whether `score` is strictly better than `other` for the side that is
/// choosing.
pub open spec fn beats(maximizing: bool, score: int, other: int) -> bool {
    if maximizing {
        score > other
    } else {
        score < other
    }
}

/// The better of two scores for the side that is choosing; the second one
/// when they are equal.
pub open spec fn pick(maximizing: bool, score: int, other: int) -> int {
    if beats(maximizing, score, other) {
        score
    } else {
        other
    }
}

/// The value of a position by plain minimax, looking `depth` plies ahead:
/// the static score at a leaf, and otherwise the best, for the side to move,
/// of the values of the positions that its legal moves lead to.
pub open spec fn minimax(pos: Chess, depth: nat, maximizing: bool) -> int
    decreases depth, 1int, 0int,
{
    if is_leaf(pos, depth) {
        position_score(pos)
    } else {
        best_reply(pos, depth, maximizing, 0)
    }
}

/// The best minimax value among the legal moves numbered `from` and up, and
/// the worst score where there is none.
pub open spec fn best_reply(pos: Chess, depth: nat, maximizing: bool, from: int) -> int
    decreases depth, 0int, legal_moves_of(pos).len() - from,
{
    let moves = legal_moves_of(pos);
    if depth == 0 || from < 0 || from >= moves.len() {
        worst(maximizing)
    } else {
        pick(
            maximizing,
            minimax(successor_of(pos, moves[from]), (depth - 1) as nat, !maximizing),
            best_reply(pos, depth, maximizing, from + 1),
        )
    }
}

/// The minimax value of the position that the legal move numbered `k` leads
/// to, for a search of `depth` plies from `pos`.
pub open spec fn reply_value(pos: Chess, depth: nat, maximizing: bool, k: int) -> int {
    minimax(successor_of(pos, legal_moves_of(pos)[k]), (depth - 1) as nat, !maximizing)
}

/// Whether the legal move numbered `k` is the first whose minimax value is
/// the minimax value of the position itself.
pub open spec fn first_best_reply(pos: Chess, depth: nat, maximizing: bool, k: int) -> bool {
    &&& 0 <= k < legal_moves_of(pos).len()
    &&& reply_value(pos, depth, maximizing, k) == minimax(pos, depth, maximizing)
    &&& forall|j: int|
        0 <= j < k ==> beats(
            maximizing,
            minimax(pos, depth, maximizing),
            #[trigger] reply_value(pos, depth, maximizing, j),
        )
}

/// How a value found within a window relates to the exact one: inside the
/// window the two are equal; at or below `alpha` the value found is an upper
/// bound of the exact one; at or above `beta` it is a lower bound.
pub open spec fn agrees_within(alpha: int, beta: int, found: int, exact: int) -> bool {
    &&& alpha < found < beta ==> exact == found
    &&& found <= alpha ==> exact <= found
    &&& found >= beta ==> exact >= found
}

/// Where a walk over the legal moves of a position stands: the window, and
/// the best move and value found so far.
pub struct Walk {
    pub alpha: int,
    pub beta: int,
    pub best: Option<Move>,
    pub value: int,
}

/// A walk before its first move: the window as given, no move, and the worst
/// value for the side that is choosing.
pub open spec fn walk_start(alpha: int, beta: int, maximizing: bool) -> Walk {
    Walk { alpha, beta, best: None, value: worst(maximizing) }
}

/// A walk after the move `mv` has been searched and found worth `reply`: a
/// strictly better value replaces the best so far, together with its move,
/// and the near bound of the window follows the best value.
pub open spec fn walk_step(walk: Walk, maximizing: bool, mv: Move, reply: int) -> Walk {
    let improved = beats(maximizing, reply, walk.value);
    let value = if improved {
        reply
    } else {
        walk.value
    };
    Walk {
        alpha: if maximizing && value > walk.alpha {
            value
        } else {
            walk.alpha
        },
        beta: if !maximizing && value < walk.beta {
            value
        } else {
            walk.beta
        },
        best: if improved {
            Some(mv)
        } else {
            walk.best
        },
        value,
    }
}

/// What the pruned search returns: at a leaf no move and the static score,
/// and otherwise what the walk over the legal moves ends with.
pub open spec fn pruned_search(
    pos: Chess,
    depth: nat,
    alpha: int,
    beta: int,
    maximizing: bool,
) -> (Option<Move>, int)
    decreases depth, 1int, 0int,
{
    if is_leaf(pos, depth) {
        (None, position_score(pos))
    } else {
        pruned_scan(pos, depth, 0, maximizing, walk_start(alpha, beta, maximizing))
    }
}

/// What a walk ends with, from the legal move numbered `from` on. Each move
/// is searched one ply less deep within the window as it then stands, and
/// the walk ends after the last move or as soon as the window is empty.
pub open spec fn pruned_scan(
    pos: Chess,
    depth: nat,
    from: int,
    maximizing: bool,
    walk: Walk,
) -> (Option<Move>, int)
    decreases depth, 0int, legal_moves_of(pos).len() - from,
{
    let moves = legal_moves_of(pos);
    if depth == 0 || from < 0 || from >= moves.len() {
        (walk.best, walk.value)
    } else {
        let reply = pruned_search(
            successor_of(pos, moves[from]),
            (depth - 1) as nat,
            walk.alpha,
            walk.beta,
            !maximizing,
        ).1;
        let next = walk_step(walk, maximizing, moves[from], reply);
        if next.alpha >= next.beta {
            (next.best, next.value)
        } else {
            pruned_scan(pos, depth, from + 1, maximizing, next)
        }
    }
}

/// Searches `depth` plies ahead of `pos` within the window from `alpha` to
/// `beta`, for the maximizing side if `maximizing_player` and for the
/// minimizing side otherwise. Returns the first move that reached the best
/// value found, if any did, and that value.
pub fn alpha_beta_search(
    pos: &Chess,
    depth: i32,
    alpha: i32,
    beta: i32,
    maximizing_player: bool,
) -> (found: (Option<Move>, i32))
    requires
        depth >= 0,
    ensures
        (found.0, found.1 as int) == pruned_search(
            *pos,
            depth as nat,
            alpha as int,
            beta as int,
            maximizing_player,
        ),
        is_leaf(*pos, depth as nat) ==> found.1 == position_score(*pos),
        found.0 is None <==> is_leaf(*pos, depth as nat),
        -MAX_SCORE <= found.1 <= MAX_SCORE,
        alpha < beta ==> agrees_within(
            alpha as int,
            beta as int,
            found.1 as int,
            minimax(*pos, depth as nat, maximizing_player),
        ),
    decreases depth,
{
    proof {
        lemma_pruned_search_bounded(
            *pos,
            depth as nat,
            alpha as int,
            beta as int,
            maximizing_player,
        );
        if alpha < beta {
            lemma_window(*pos, depth as nat, alpha as int, beta as int, maximizing_player);
        }
    }
    if depth == 0 || is_checkmate(pos) || is_stalemate(pos) {
        return (None, evaluate_pos(pos));
    }
    let ghost target = pruned_search(
        *pos,
        depth as nat,
        alpha as int,
        beta as int,
        maximizing_player,
    );
    let mut alpha: i32 = alpha;
    let mut beta: i32 = beta;
    let mut best_move: Option<Move> = None;
    let mut value: i32;
    let moves = legal_moves(pos);
    let mut i: usize = 0;

    if maximizing_player {
        value = i32::MIN;
        while i < moves.len()
            invariant_except_break
                pruned_scan(
                    *pos,
                    depth as nat,
                    i as int,
                    true,
                    (Walk {
                        alpha: alpha as int,
                        beta: beta as int,
                        best: best_move,
                        value: value as int,
                    }),
                ) == target,
            invariant
                i <= moves.len(),
                moves@ == legal_moves_of(*pos),
                depth >= 1,
            ensures
                (best_move, value as int) == target,
            decreases moves.len() - i,
        {
            let mut new_pos = pos.clone();
            assert(moves@.contains(moves@[i as int]));
            play_unchecked(&mut new_pos, &moves[i]);
            let reply: (Option<Move>, i32) = alpha_beta_search(
                &new_pos,
                depth - 1,
                alpha,
                beta,
                false,
            );
            let move_value: i32 = reply.1;
            if move_value > value {
                value = move_value;
                best_move = Some(moves[i].clone());
            }
            if value > alpha {
                alpha = value;
            }
            if alpha >= beta {
                break ;
            }
            i += 1;
        }
    } else {
        value = i32::MAX;
        while i < moves.len()
            invariant_except_break
                pruned_scan(
                    *pos,
                    depth as nat,
                    i as int,
                    false,
                    (Walk {
                        alpha: alpha as int,
                        beta: beta as int,
                        best: best_move,
                        value: value as int,
                    }),
                ) == target,
            invariant
                i <= moves.len(),
                moves@ == legal_moves_of(*pos),
                depth >= 1,
            ensures
                (best_move, value as int) == target,
            decreases moves.len() - i,
        {
            let mut new_pos = pos.clone();
            assert(moves@.contains(moves@[i as int]));
            play_unchecked(&mut new_pos, &moves[i]);
            let reply: (Option<Move>, i32) = alpha_beta_search(
                &new_pos,
                depth - 1,
                alpha,
                beta,
                true,
            );
            let move_value: i32 = reply.1;
            if move_value < value {
                value = move_value;
                best_move = Some(moves[i].clone());
            }
            if value < beta {
                beta = value;
            }
            if beta <= alpha {
                break ;
            }
            i += 1;
        }
    }
    (best_move, value)
}

/// The engine's choice in a position, looking `depth` plies ahead: the full
/// window, with the side to move taken as the minimizing one. Returns the
/// position's minimax value and the first legal move that attains it, or no
/// move where the position is a leaf.
pub fn choose_move(pos: &Chess, depth: i32) -> (choice: (Option<Move>, i32))
    requires
        depth >= 0,
    ensures
        choice.1 == minimax(*pos, depth as nat, false),
        choice.0 is None <==> is_leaf(*pos, depth as nat),
        choice.0 matches Some(mv) ==> exists|k: int|
            #![trigger legal_moves_of(*pos)[k]]
            first_best_reply(*pos, depth as nat, false, k) && legal_moves_of(*pos)[k] == mv,
{
    proof {
        lemma_full_window_choice(*pos, depth as nat, false);
    }
    alpha_beta_search(pos, depth, i32::MIN, i32::MAX, false)
}

} // verus!
