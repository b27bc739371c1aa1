//! The board as rows of symbols, for whoever prints it.

use vstd::prelude::*;
use shakmaty::Chess;
use crate::pieces::{Color, Piece, Role, Square};
use crate::rules::{piece_at, piece_on, placement_of};

verus! {

/// The symbol that marks an empty square.
pub const EMPTY_SQUARE: char = '.';

/// The symbol of a piece: the outlined chess figure for a Black piece, the
/// solid one for a White piece.
pub open spec fn symbol_of(piece: Piece) -> char {
    match (piece.role, piece.color) {
        (Role::Pawn, Color::Black) => '\u{2659}',
        (Role::Pawn, Color::White) => '\u{265F}',
        (Role::Knight, Color::Black) => '\u{2658}',
        (Role::Knight, Color::White) => '\u{265E}',
        (Role::Bishop, Color::Black) => '\u{2657}',
        (Role::Bishop, Color::White) => '\u{265D}',
        (Role::Rook, Color::Black) => '\u{2656}',
        (Role::Rook, Color::White) => '\u{265C}',
        (Role::Queen, Color::Black) => '\u{2655}',
        (Role::Queen, Color::White) => '\u{265B}',
        (Role::King, Color::Black) => '\u{2654}',
        (Role::King, Color::White) => '\u{265A}',
    }
}

/// The symbol shown for a square of a placement: that of the piece on it, or
/// a dot.
pub open spec fn square_symbol(placement: Map<int, Piece>, square: int) -> char {
    match piece_on(placement, square) {
        Some(piece) => symbol_of(piece),
        None => EMPTY_SQUARE,
    }
}

/// The symbol of a piece.
pub fn piece_symbol(piece: Piece) -> (symbol: char)
    ensures
        symbol == symbol_of(piece),
{
    match piece.role {
        Role::Pawn => if piece.color == Color::Black {
            '\u{2659}'
        } else {
            '\u{265F}'
        },
        Role::Knight => if piece.color == Color::Black {
            '\u{2658}'
        } else {
            '\u{265E}'
        },
        Role::Bishop => if piece.color == Color::Black {
            '\u{2657}'
        } else {
            '\u{265D}'
        },
        Role::Rook => if piece.color == Color::Black {
            '\u{2656}'
        } else {
            '\u{265C}'
        },
        Role::Queen => if piece.color == Color::Black {
            '\u{2655}'
        } else {
            '\u{265B}'
        },
        Role::King => if piece.color == Color::Black {
            '\u{2654}'
        } else {
            '\u{265A}'
        },
    }
}

/// The board of a position as eight rows of eight symbols, the eighth rank
/// first and each rank from the a-file to the h-file.
pub fn board_rows(pos: &Chess) -> (rows: Vec<Vec<char>>)
    ensures
        rows.len() == 8,
        forall|r: int| 0 <= r < 8 ==> (#[trigger] rows[r]).len() == 8,
        forall|r: int, f: int|
            0 <= r < 8 && 0 <= f < 8 ==> #[trigger] rows[r][f] == square_symbol(
                placement_of(*pos),
                (7 - r) * 8 + f,
            ),
{
    let mut rows: Vec<Vec<char>> = Vec::new();
    let mut row: u8 = 0;
    while row < 8
        invariant
            row <= 8,
            rows.len() == row,
            forall|r: int| 0 <= r < row ==> (#[trigger] rows[r]).len() == 8,
            forall|r: int, f: int|
                0 <= r < row && 0 <= f < 8 ==> #[trigger] rows[r][f] == square_symbol(
                    placement_of(*pos),
                    (7 - r) * 8 + f,
                ),
        decreases 8 - row,
    {
        let rank: u8 = 7 - row;
        let mut line: Vec<char> = Vec::new();
        let mut file: u8 = 0;
        while file < 8
            invariant
                file <= 8,
                rank < 8,
                line.len() == file,
                forall|f: int|
                    0 <= f < file ==> #[trigger] line[f] == square_symbol(
                        placement_of(*pos),
                        rank * 8 + f,
                    ),
            decreases 8 - file,
        {
            let symbol: char = match Square::from_coords(file, rank) {
                Some(square) => match piece_at(pos, square) {
                    Some(piece) => piece_symbol(piece),
                    None => EMPTY_SQUARE,
                },
                None => EMPTY_SQUARE,
            };
            line.push(symbol);
            file += 1;
        }
        rows.push(line);
        row += 1;
    }
    rows
}

} // verus!
