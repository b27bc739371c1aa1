//! The rules engine, `shakmaty`, as this library sees it.
//!
//! Positions and moves are values of the rules engine and stay opaque here.
//! What the engine computes from them is named by the specification
//! functions below, which have no body. Each executable function of this
//! module makes one call into the engine; its contract is taken on trust and
//! says, over those names, what the engine's source shows of the call.

use vstd::prelude::*;
use std::str::FromStr;
use shakmaty::uci::{IllegalUciError, ParseUciError, Uci};
use shakmaty::{Chess, Move, Position};
use crate::pieces::{Color, Piece, Role, Square};

verus! {

/// `shakmaty::Chess`: a position of standard chess.
#[verifier::external_type_specification]
#[verifier::external_body]
pub struct ExChess(Chess);

/// `shakmaty::Move`: a move as the rules engine generates it.
#[verifier::external_type_specification]
#[verifier::external_body]
pub struct ExMove(Move);

/// `shakmaty::uci::Uci`: a move in coordinate notation, not yet tied to a
/// position.
#[verifier::external_type_specification]
#[verifier::external_body]
pub struct ExUci(Uci);

/// `shakmaty::uci::ParseUciError`: the text is no move in coordinate notation.
#[verifier::external_type_specification]
#[verifier::external_body]
pub struct ExParseUciError(ParseUciError);

/// `shakmaty::uci::IllegalUciError`: the move cannot be played in the
/// position.
#[verifier::external_type_specification]
#[verifier::external_body]
pub struct ExIllegalUciError(IllegalUciError);

/// The pieces on the board of a position, keyed by the number of the square
/// each one stands on.
pub uninterp spec fn placement_of(pos: Chess) -> Map<int, Piece>;

/// The side to move in a position.
pub uninterp spec fn turn_of(pos: Chess) -> Color;

/// Whether the side to move is in check, as `Position::is_check` tells it.
pub uninterp spec fn in_check(pos: Chess) -> bool;

/// The legal moves of a position, in the order in which the rules engine
/// generates them.
pub uninterp spec fn legal_moves_of(pos: Chess) -> Seq<Move>;

/// The position that a legal move leads to.
pub uninterp spec fn successor_of(pos: Chess, mv: Move) -> Chess;

/// The move that a text spells in coordinate notation, if it spells one.
pub uninterp spec fn uci_of(text: Seq<char>) -> Option<Uci>;

/// The move of a position that a move in coordinate notation stands for, if
/// the rules engine finds one.
pub uninterp spec fn move_of_uci(uci: Uci, pos: Chess) -> Option<Move>;

/// Checkmate: the side to move is in check and has no legal move.
pub open spec fn checkmate_in(pos: Chess) -> bool {
    in_check(pos) && legal_moves_of(pos).len() == 0
}

/// Stalemate: the side to move is not in check and has no legal move.
pub open spec fn stalemate_in(pos: Chess) -> bool {
    !in_check(pos) && legal_moves_of(pos).len() == 0
}

/// The piece on a square of a placement, if the square is occupied.
pub open spec fn piece_on(placement: Map<int, Piece>, square: int) -> Option<Piece> {
    if placement.dom().contains(square) {
        Some(placement[square])
    } else {
        None
    }
}

/// Calls `Position::turn`. On trust: the side it reports is the side to move,
/// White for White and Black for Black.
#[verifier::external_body]
pub(crate) fn turn(pos: &Chess) -> (side: Color)
    ensures
        side == turn_of(*pos),
{
    match pos.turn() {
        shakmaty::Color::White => Color::White,
        shakmaty::Color::Black => Color::Black,
    }
}

/// Calls `Board::occupied` and walks the `Bitboard` it returns. On trust:
/// the walk yields squares of the board in rising order, from a1 upwards, and
/// leaves out no square on which `Board::piece_at` finds a piece.
#[verifier::external_body]
pub(crate) fn occupied_squares(pos: &Chess) -> (squares: Vec<Square>)
    ensures
        forall|i: int| 0 <= i < squares.len() ==> 0 <= (#[trigger] squares[i])@ < 64,
        forall|i: int, j: int| 0 <= i < j < squares.len() ==> squares[i]@ < squares[j]@,
        forall|s: int| #[trigger]
            placement_of(*pos).dom().contains(s) ==> exists|i: int|
                0 <= i < squares.len() && (#[trigger] squares[i])@ == s,
{
    pos.board().occupied().into_iter().map(|sq| Square { index: u8::from(sq) }).collect()
}

/// Calls `Board::piece_at`. On trust: it returns the piece of the placement
/// on that square, kind for kind and side for side, and `None` where the
/// placement has none. `Square::new` panics on a number above 63, which the
/// precondition keeps out.
#[verifier::external_body]
pub(crate) fn piece_at(pos: &Chess, square: Square) -> (found: Option<Piece>)
    requires
        0 <= square@ < 64,
    ensures
        found == piece_on(placement_of(*pos), square@),
{
    pos.board().piece_at(shakmaty::Square::new(u32::from(square.index))).map(|p| Piece {
        role: match p.role {
            shakmaty::Role::Pawn => Role::Pawn,
            shakmaty::Role::Knight => Role::Knight,
            shakmaty::Role::Bishop => Role::Bishop,
            shakmaty::Role::Rook => Role::Rook,
            shakmaty::Role::Queen => Role::Queen,
            shakmaty::Role::King => Role::King,
        },
        color: match p.color {
            shakmaty::Color::White => Color::White,
            shakmaty::Color::Black => Color::Black,
        },
    })
}

/// Calls `Position::is_checkmate`. On trust, as its body reads: the side to
/// move is in check and the list of legal moves is empty.
#[verifier::external_body]
pub(crate) fn is_checkmate(pos: &Chess) -> (mated: bool)
    ensures
        mated == (in_check(*pos) && legal_moves_of(*pos).len() == 0),
{
    pos.is_checkmate()
}

/// Calls `Position::is_stalemate`. On trust, as its body reads: the side to
/// move is not in check and the list of legal moves is empty. (The body also
/// asks that the game has not ended by a variant's rule, which for `Chess` it
/// never has.)
#[verifier::external_body]
pub(crate) fn is_stalemate(pos: &Chess) -> (stalled: bool)
    ensures
        stalled == (!in_check(*pos) && legal_moves_of(*pos).len() == 0),
{
    pos.is_stalemate()
}

/// Calls `Position::legal_moves`. On trust: the list it returns, kept in its
/// order, is the list that `legal_moves_of` names.
#[verifier::external_body]
pub(crate) fn legal_moves(pos: &Chess) -> (moves: Vec<Move>)
    ensures
        moves@ == legal_moves_of(*pos),
{
    pos.legal_moves().into_iter().collect()
}

/// Calls `Position::play_unchecked`. On trust: a legal move turns the
/// position into the one that `successor_of` names. The engine may panic on
/// an illegal move, which the precondition keeps out.
#[verifier::external_body]
pub(crate) fn play_unchecked(pos: &mut Chess, mv: &Move)
    requires
        legal_moves_of(*old(pos)).contains(*mv),
    ensures
        *final(pos) == successor_of(*old(pos), *mv),
{
    pos.play_unchecked(mv)
}

/// Calls `Position::is_legal`. On trust: it tells whether the move occurs in
/// the list of legal moves.
#[verifier::external_body]
pub(crate) fn is_legal(pos: &Chess, mv: &Move) -> (legal: bool)
    ensures
        legal == legal_moves_of(*pos).contains(*mv),
{
    pos.is_legal(mv)
}

/// Calls `Uci::from_str`, which reads coordinate notation such as `e2e4`. On
/// trust: what it returns depends on the text alone, and is what `uci_of`
/// names.
#[verifier::external_body]
pub(crate) fn parse_uci(text: &str) -> (parsed: Result<Uci, ParseUciError>)
    ensures
        parsed matches Ok(uci) ==> uci_of(text@) == Some(uci),
        parsed is Err ==> uci_of(text@) is None,
{
    Uci::from_str(text)
}

/// Calls `Uci::to_move`. On trust: what it returns depends on the notation
/// and the position alone, and is what `move_of_uci` names.
#[verifier::external_body]
pub(crate) fn uci_to_move(uci: &Uci, pos: &Chess) -> (found: Result<Move, IllegalUciError>)
    ensures
        found matches Ok(mv) ==> move_of_uci(*uci, *pos) == Some(mv),
        found is Err ==> move_of_uci(*uci, *pos) is None,
{
    uci.to_move(pos)
}

/// `Clone::clone` of `Chess`. On trust: the copy is the same position.
pub assume_specification[ <Chess as Clone>::clone ](pos: &Chess) -> (copy: Chess)
    ensures
        copy == *pos,
;

/// `Clone::clone` of `Move`. On trust: the copy is the same move.
pub assume_specification[ <Move as Clone>::clone ](mv: &Move) -> (copy: Move)
    ensures
        copy == *mv,
;

} // verus!
