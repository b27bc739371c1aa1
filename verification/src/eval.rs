//! The static evaluator: material and placement, from the mover's side.

use vstd::prelude::*;
use shakmaty::Chess;
use crate::pieces::{Color, Piece, Square};
use crate::rules::{occupied_squares, piece_at, piece_on, placement_of, turn, turn_of};
use crate::tables::{
    get_piece_value, lemma_bonus_bounds, piece_value, table_index, PieceSquareTable,
};

verus! {

/// The largest value that one piece can have on any square.
pub const MAX_PIECE_VALUE: i32 = 20070;

/// The largest score that a board can have: 64 pieces of the largest value.
pub const MAX_SCORE: i32 = 1284480;

/// What the square numbered `square` adds to the score of the side `turn`:
/// the value of the piece on it, counted for a piece of that side and
/// against a piece of the other, and nothing for an empty square.
pub open spec fn contribution(placement: Map<int, Piece>, turn: Color, square: int) -> int {
    match piece_on(placement, square) {
        Some(piece) => if piece.color == turn {
            piece_value(piece.role, piece.color, square)
        } else {
            -piece_value(piece.role, piece.color, square)
        },
        None => 0,
    }
}

/// The contributions of the squares numbered below `bound`, added up.
pub open spec fn evaluation_below(placement: Map<int, Piece>, turn: Color, bound: int) -> int
    decreases bound,
{
    if bound <= 0 {
        0
    } else {
        evaluation_below(placement, turn, bound - 1) + contribution(placement, turn, bound - 1)
    }
}

/// The score of a placement for the side `turn`: the contributions of all
/// 64 squares.
pub open spec fn evaluation(placement: Map<int, Piece>, turn: Color) -> int {
    evaluation_below(placement, turn, 64)
}

/// The score of a position for its side to move.
pub open spec fn position_score(pos: Chess) -> int {
    evaluation(placement_of(pos), turn_of(pos))
}

/// No square adds or takes away more than `MAX_PIECE_VALUE`.
pub proof fn lemma_contribution_bounds(placement: Map<int, Piece>, turn: Color, square: int)
    requires
        0 <= square < 64,
    ensures
        -MAX_PIECE_VALUE <= contribution(placement, turn, square) <= MAX_PIECE_VALUE,
{
    match piece_on(placement, square) {
        Some(piece) => {
            lemma_bonus_bounds(piece.role, table_index(piece.color, square));
        },
        None => {},
    }
}

/// The squares below `bound` cannot add up to more than `bound` pieces of the
/// largest value, for either side.
pub proof fn lemma_evaluation_below_bounds(placement: Map<int, Piece>, turn: Color, bound: int)
    requires
        0 <= bound <= 64,
    ensures
        -MAX_PIECE_VALUE * bound <= evaluation_below(placement, turn, bound) <= MAX_PIECE_VALUE
            * bound,
    decreases bound,
{
    if bound > 0 {
        lemma_evaluation_below_bounds(placement, turn, bound - 1);
        lemma_contribution_bounds(placement, turn, bound - 1);
    }
}

/// A score never leaves the range of a 32-bit integer: it lies within 64
/// pieces of the largest value.
pub proof fn lemma_evaluation_bounds(placement: Map<int, Piece>, turn: Color)
    ensures
        -MAX_SCORE <= evaluation(placement, turn) <= MAX_SCORE,
{
    lemma_evaluation_below_bounds(placement, turn, 64);
}

/// The score is antisymmetric in the side to move: the same board is worth
/// to one side the negative of what it is worth to the other.
pub proof fn lemma_evaluation_antisymmetric(placement: Map<int, Piece>, turn: Color)
    ensures
        evaluation(placement, turn.opponent()) == -evaluation(placement, turn),
{
    lemma_evaluation_below_antisymmetric(placement, turn, 64);
}

/// Antisymmetry in the side to move, for the squares below `bound`.
pub proof fn lemma_evaluation_below_antisymmetric(
    placement: Map<int, Piece>,
    turn: Color,
    bound: int,
)
    ensures
        evaluation_below(placement, turn.opponent(), bound) == -evaluation_below(
            placement,
            turn,
            bound,
        ),
    decreases bound,
{
    if bound > 0 {
        lemma_evaluation_below_antisymmetric(placement, turn, bound - 1);
    }
}

/// The square that a square becomes when the board is turned so that the
/// two sides change places: the same file, the rank counted from the other
/// edge.
pub open spec fn mirror_square(square: int) -> int {
    (7 - square / 8) * 8 + square % 8
}

/// A placement with the two sides changing places: every piece on the
/// mirrored square, in the other colour.
pub open spec fn mirrored(placement: Map<int, Piece>) -> Map<int, Piece> {
    Map::new(
        |s: int| 0 <= s < 64 && placement.dom().contains(mirror_square(s)),
        |s: int|
            Piece {
                role: placement[mirror_square(s)].role,
                color: placement[mirror_square(s)].color.opponent(),
            },
    )
}

/// A square of the mirrored placement adds, for the other side, what the
/// mirrored square of the placement adds for this side.
pub proof fn lemma_contribution_mirrored(placement: Map<int, Piece>, turn: Color, square: int)
    requires
        0 <= square < 64,
    ensures
        contribution(mirrored(placement), turn.opponent(), square) == contribution(
            placement,
            turn,
            mirror_square(square),
        ),
{
}

/// The contributions of the first `files` squares of a rank, added up.
spec fn rank_sum(placement: Map<int, Piece>, turn: Color, rank: int, files: int) -> int
    decreases files,
{
    if files <= 0 {
        0
    } else {
        rank_sum(placement, turn, rank, files - 1) + contribution(
            placement,
            turn,
            rank * 8 + files - 1,
        )
    }
}

/// The sum below a square is the sum below its rank plus the part of the
/// rank before it.
proof fn lemma_rank_added(placement: Map<int, Piece>, turn: Color, rank: int, files: int)
    requires
        0 <= rank,
        0 <= files <= 8,
    ensures
        evaluation_below(placement, turn, rank * 8 + files) == evaluation_below(
            placement,
            turn,
            rank * 8,
        ) + rank_sum(placement, turn, rank, files),
    decreases files,
{
    if files > 0 {
        lemma_rank_added(placement, turn, rank, files - 1);
    }
}

/// A rank of the mirrored placement adds, for the other side, what the
/// mirrored rank of the placement adds for this side.
proof fn lemma_rank_mirrored(placement: Map<int, Piece>, turn: Color, rank: int, files: int)
    requires
        0 <= rank < 8,
        0 <= files <= 8,
    ensures
        rank_sum(mirrored(placement), turn.opponent(), rank, files) == rank_sum(
            placement,
            turn,
            7 - rank,
            files,
        ),
    decreases files,
{
    if files > 0 {
        lemma_rank_mirrored(placement, turn, rank, files - 1);
        lemma_contribution_mirrored(placement, turn, rank * 8 + files - 1);
        assert(mirror_square(rank * 8 + files - 1) == (7 - rank) * 8 + files - 1);
    }
}

/// The sum over the whole board, rank by rank.
proof fn lemma_evaluation_by_ranks(placement: Map<int, Piece>, turn: Color)
    ensures
        evaluation(placement, turn) == rank_sum(placement, turn, 0, 8) + rank_sum(
            placement,
            turn,
            1,
            8,
        ) + rank_sum(placement, turn, 2, 8) + rank_sum(placement, turn, 3, 8) + rank_sum(
            placement,
            turn,
            4,
            8,
        ) + rank_sum(placement, turn, 5, 8) + rank_sum(placement, turn, 6, 8) + rank_sum(
            placement,
            turn,
            7,
            8,
        ),
{
    lemma_rank_added(placement, turn, 0, 8);
    lemma_rank_added(placement, turn, 1, 8);
    lemma_rank_added(placement, turn, 2, 8);
    lemma_rank_added(placement, turn, 3, 8);
    lemma_rank_added(placement, turn, 4, 8);
    lemma_rank_added(placement, turn, 5, 8);
    lemma_rank_added(placement, turn, 6, 8);
    lemma_rank_added(placement, turn, 7, 8);
}

/// The tables serve both sides alike: when the two sides change places, the
/// board is worth to the new side to move what it was worth to the old one.
pub proof fn lemma_evaluation_mirrored(placement: Map<int, Piece>, turn: Color)
    ensures
        evaluation(mirrored(placement), turn.opponent()) == evaluation(placement, turn),
{
    lemma_evaluation_by_ranks(placement, turn);
    lemma_evaluation_by_ranks(mirrored(placement), turn.opponent());
    lemma_rank_mirrored(placement, turn, 0, 8);
    lemma_rank_mirrored(placement, turn, 1, 8);
    lemma_rank_mirrored(placement, turn, 2, 8);
    lemma_rank_mirrored(placement, turn, 3, 8);
    lemma_rank_mirrored(placement, turn, 4, 8);
    lemma_rank_mirrored(placement, turn, 5, 8);
    lemma_rank_mirrored(placement, turn, 6, 8);
    lemma_rank_mirrored(placement, turn, 7, 8);
}

/// Mirroring the board without passing the move negates the score.
pub proof fn lemma_evaluation_mirrored_same_mover(placement: Map<int, Piece>, turn: Color)
    ensures
        evaluation(mirrored(placement), turn) == -evaluation(placement, turn),
{
    lemma_evaluation_mirrored(placement, turn);
    lemma_evaluation_antisymmetric(mirrored(placement), turn);
}

/// Empty squares add nothing: if no square from `low` up to `high` is
/// occupied, the sums below the two agree.
proof fn lemma_empty_stretch(placement: Map<int, Piece>, turn: Color, low: int, high: int)
    requires
        0 <= low <= high,
        forall|s: int| low <= s < high ==> !placement.dom().contains(s),
    ensures
        evaluation_below(placement, turn, high) == evaluation_below(placement, turn, low),
    decreases high - low,
{
    if low < high {
        lemma_empty_stretch(placement, turn, low, high - 1);
    }
}

/// Where the walk over the occupied squares stands after `done` of them: just
/// past the last square visited.
spec fn reached(squares: Seq<Square>, done: int) -> int {
    if done <= 0 {
        0
    } else {
        squares[done - 1]@ + 1
    }
}

/// The score of a position from the point of view of its side to move: every
/// piece's value, added for the mover's pieces and subtracted for the
/// opponent's.
pub fn evaluate_pos(pos: &Chess) -> (score: i32)
    ensures
        score == position_score(*pos),
        -MAX_SCORE <= score <= MAX_SCORE,
{
    proof {
        lemma_evaluation_bounds(placement_of(*pos), turn_of(*pos));
    }
    let mut score: i32 = 0;
    let pst = PieceSquareTable::new();
    let side = turn(pos);
    let squares = occupied_squares(pos);
    let ghost placement = placement_of(*pos);
    let mut i: usize = 0;
    while i < squares.len()
        invariant
            i <= squares.len(),
            placement == placement_of(*pos),
            side == turn_of(*pos),
            forall|k: int| 0 <= k < squares.len() ==> 0 <= (#[trigger] squares[k])@ < 64,
            forall|k: int, l: int| 0 <= k < l < squares.len() ==> squares[k]@ < squares[l]@,
            forall|s: int| #[trigger]
                placement.dom().contains(s) ==> exists|k: int|
                    0 <= k < squares.len() && (#[trigger] squares[k])@ == s,
            0 <= reached(squares@, i as int) <= 64,
            score == evaluation_below(placement, side, reached(squares@, i as int)),
        decreases squares.len() - i,
    {
        let square = squares[i];
        let ghost before = reached(squares@, i as int);
        proof {
            assert(squares[i as int]@ >= before);
            assert forall|s: int| before <= s < square@ implies !placement.dom().contains(s) by {
                if placement.dom().contains(s) {
                    let k = choose|k: int| 0 <= k < squares.len() && (#[trigger] squares[k])@ == s;
                    if k < i {
                        assert(k == i - 1 || squares[k]@ < squares[i - 1]@);
                    } else if k > i {
                        assert(squares[i as int]@ < squares[k]@);
                    }
                }
            }
            lemma_empty_stretch(placement, side, before, square@);
            lemma_evaluation_below_bounds(placement, side, square@);
            lemma_contribution_bounds(placement, side, square@);
        }
        match piece_at(pos, square) {
            Some(piece) => {
                let value = get_piece_value(&pst, piece.role, piece.color, square);
                if piece.color == side {
                    score += value;
                } else {
                    score -= value;
                }
            },
            None => {},
        }
        i += 1;
    }
    proof {
        let end = reached(squares@, squares.len() as int);
        assert forall|s: int| end <= s < 64 implies !placement.dom().contains(s) by {
            if placement.dom().contains(s) {
                let k = choose|k: int| 0 <= k < squares.len() && (#[trigger] squares[k])@ == s;
                assert(k == squares.len() - 1 || squares[k]@ < squares[squares.len() - 1]@);
            }
        }
        lemma_empty_stretch(placement, side, end, 64);
    }
    score
}

} // verus!
