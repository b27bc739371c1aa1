//! The turns of a game against the engine: the player's move from its text,
//! the engine's reply, when the game is over and who has won.

use vstd::prelude::*;
use shakmaty::{Chess, Move};
use crate::pieces::Color;
use crate::rules::{
    checkmate_in, is_checkmate, is_legal, is_stalemate, legal_moves_of, move_of_uci, parse_uci,
    play_unchecked, stalemate_in, successor_of, turn, turn_of, uci_of, uci_to_move,
};
use crate::search::{choose_move, first_best_reply, is_leaf};

verus! {

/// How many plies the engine looks ahead when it replies.
pub const SEARCH_DEPTH: i32 = 4;

/// Whether `next` is what a position becomes when the minimizing side plays
/// its first best reply to a search of `depth` plies: the successor by that
/// move, or the position itself where it is a leaf.
pub open spec fn first_reply_follows(pos: Chess, depth: nat, next: Chess) -> bool {
    if is_leaf(pos, depth) {
        next == pos
    } else {
        exists|k: int|
            #![trigger legal_moves_of(pos)[k]]
            first_best_reply(pos, depth, false, k) && next == successor_of(
                pos,
                legal_moves_of(pos)[k],
            )
    }
}

/// Whether the game has ended in a position, by checkmate or by stalemate.
pub fn game_over(pos: &Chess) -> (over: bool)
    ensures
        over == (checkmate_in(*pos) || stalemate_in(*pos)),
{
    is_checkmate(pos) || is_stalemate(pos)
}

/// The side that has won in a position: the one that has just moved, if the
/// side to move is checkmated, and nobody otherwise.
pub fn winner(pos: &Chess) -> (side: Option<Color>)
    ensures
        side == if checkmate_in(*pos) {
            Some(turn_of(*pos).opponent())
        } else {
            None
        },
{
    if is_checkmate(pos) {
        Some(turn(pos).other())
    } else {
        None
    }
}

/// Why a player's move was turned down.
#[derive(Clone, Copy, Debug, PartialEq, Eq, Structural)]
pub enum MoveError {
    /// The text spells no move, or none that the position has.
    Invalid,
    /// The move is not among the legal moves.
    Illegal,
}

/// What a player's text leads to in a position: the successor by the move
/// that the text spells in coordinate notation, where the text spells a move
/// of the position and the move is legal.
pub open spec fn player_reply(pos: Chess, input: Seq<char>) -> Result<Chess, MoveError> {
    match uci_of(input) {
        None => Err(MoveError::Invalid),
        Some(uci) => match move_of_uci(uci, pos) {
            None => Err(MoveError::Invalid),
            Some(mv) => if legal_moves_of(pos).contains(mv) {
                Ok(successor_of(pos, mv))
            } else {
                Err(MoveError::Illegal)
            },
        },
    }
}

/// Plays the move that `input` spells in coordinate notation and returns the
/// position after it, or says why the move was turned down.
pub fn player_turn(pos: &Chess, input: &str) -> (next: Result<Chess, MoveError>)
    ensures
        next == player_reply(*pos, input@),
{
    match parse_uci(input) {
        Ok(uci) => match uci_to_move(&uci, pos) {
            Ok(mv) => {
                if is_legal(pos, &mv) {
                    let mut next = pos.clone();
                    play_unchecked(&mut next, &mv);
                    Ok(next)
                } else {
                    Err(MoveError::Illegal)
                }
            },
            Err(_) => Err(MoveError::Invalid),
        },
        Err(_) => Err(MoveError::Invalid),
    }
}

/// The position after the engine has replied: the engine's choice at
/// `SEARCH_DEPTH` plies is played, and where it has none the position stays
/// as it is.
pub fn engine_turn(pos: Chess) -> (next: Chess)
    ensures
        first_reply_follows(pos, SEARCH_DEPTH as nat, next),
{
    let choice: (Option<Move>, i32) = choose_move(&pos, SEARCH_DEPTH);
    match choice.0 {
        Some(mv) => {
            let mut next = pos;
            play_unchecked(&mut next, &mv);
            next
        },
        None => pos,
    }
}

} // verus!
