//! Material values and piece-square tables.

use vstd::prelude::*;
use crate::pieces::{Color, Role, Square};

verus! {

/// Positional bonuses for a king, read from the eighth rank down to the first.
pub const KING_MG: [i32; 64] = [
    0,    0,     0,     0,    0,    0,    0,    0,
    0,    0,     0,     0,    0,    0,    0,    0,
    0,    0,     0,     0,    0,    0,    0,    0,
    0,    0,     0,    20,   20,    0,    0,    0,
    0,    0,     0,    20,   20,    0,    0,    0,
    0,    0,     0,     0,    0,    0,    0,    0,
    0,    0,     0,   -10,  -10,    0,    0,    0,
    0,    0,    20,   -10,  -10,    0,   20,    0,
];

/// Positional bonuses for a queen.
pub const QUEEN_MG: [i32; 64] = [
    -30,  -20,  -10,  -10,  -10,  -10,  -20,  -30,
    -20,  -10,   -5,   -5,   -5,   -5,  -10,  -20,
    -10,   -5,   10,   10,   10,   10,   -5,  -10,
    -10,   -5,   10,   20,   20,   10,   -5,  -10,
    -10,   -5,   10,   20,   20,   10,   -5,  -10,
    -10,   -5,   -5,   -5,   -5,   -5,   -5,  -10,
    -20,  -10,   -5,   -5,   -5,   -5,  -10,  -20,
    -30,  -20,  -10,  -10,  -10,  -10,  -20,  -30,
];

/// Positional bonuses for a rook.
pub const ROOK_MG: [i32; 64] = [
    0,   0,   0,   0,   0,   0,   0,   0,
   15,  15,  15,  20,  20,  15,  15,  15,
    0,   0,   0,   0,   0,   0,   0,   0,
    0,   0,   0,   0,   0,   0,   0,   0,
    0,   0,   0,   0,   0,   0,   0,   0,
    0,   0,   0,   0,   0,   0,   0,   0,
    0,   0,   0,   0,   0,   0,   0,   0,
    0,   0,   0,  10,  10,  10,   0,   0,
];

/// Positional bonuses for a bishop.
pub const BISHOP_MG: [i32; 64] = [
    -20,    0,    0,    0,    0,    0,    0,  -20,
    -15,    0,    0,    0,    0,    0,    0,  -15,
    -10,    0,    0,    5,    5,    0,    0,  -10,
    -10,   10,   10,   30,   30,   10,   10,  -10,
      5,    5,   10,   25,   25,   10,    5,    5,
      5,    5,    5,   10,   10,    5,    5,    5,
    -10,    5,    5,   10,   10,    5,    5,  -10,
    -20,  -10,  -10,  -10,  -10,  -10,  -10,  -20,
];

/// Positional bonuses for a knight.
pub const KNIGHT_MG: [i32; 64] = [
    -20, -10,  -10,  -10,  -10,  -10,  -10,  -20,
    -10,  -5,   -5,   -5,   -5,   -5,   -5,  -10,
    -10,  -5,   15,   15,   15,   15,   -5,  -10,
    -10,  -5,   15,   15,   15,   15,   -5,  -10,
    -10,  -5,   15,   15,   15,   15,   -5,  -10,
    -10,  -5,   10,   15,   15,   15,   -5,  -10,
    -10,  -5,   -5,   -5,   -5,   -5,   -5,  -10,
    -20,   0,  -10,  -10,  -10,  -10,    0,  -20,
];

/// Positional bonuses for a pawn.
pub const PAWN_MG: [i32; 64] = [
     0,   0,   0,   0,   0,   0,   0,   0,
    60,  60,  60,  60,  70,  60,  60,  60,
    40,  40,  40,  50,  60,  40,  40,  40,
    20,  20,  20,  40,  50,  20,  20,  20,
     5,   5,  15,  30,  40,  10,   5,   5,
     5,   5,  10,  20,  30,   5,   5,   5,
     5,   5,   5, -30, -30,   5,   5,   5,
     0,   0,   0,   0,   0,   0,   0,   0,
];

/// The material value of a piece kind, in centipawns.
pub open spec fn base_value(role: Role) -> int {
    match role {
        Role::Pawn => 100,
        Role::Knight => 320,
        Role::Bishop => 330,
        Role::Rook => 500,
        Role::Queen => 900,
        Role::King => 20000,
    }
}

/// The entry of a piece kind's table at position `index`.
pub open spec fn bonus(role: Role, index: int) -> int {
    match role {
        Role::Pawn => PAWN_MG@[index] as int,
        Role::Knight => KNIGHT_MG@[index] as int,
        Role::Bishop => BISHOP_MG@[index] as int,
        Role::Rook => ROOK_MG@[index] as int,
        Role::Queen => QUEEN_MG@[index] as int,
        Role::King => KING_MG@[index] as int,
    }
}

/// Where a side reads its table for the square numbered `square`: the file
/// as it is, the rank counted from the far edge for White and from the near
/// edge for Black.
pub open spec fn table_index(color: Color, square: int) -> int {
    let file = square % 8;
    let rank = square / 8;
    match color {
        Color::White => (7 - rank) * 8 + file,
        Color::Black => rank * 8 + file,
    }
}

/// What one piece is worth on a square: its material plus its table's bonus.
pub open spec fn piece_value(role: Role, color: Color, square: int) -> int {
    base_value(role) + bonus(role, table_index(color, square))
}

/// The six piece-square tables, one per piece kind.
pub struct PieceSquareTable {
    pawn: [i32; 64],
    knight: [i32; 64],
    bishop: [i32; 64],
    rook: [i32; 64],
    queen: [i32; 64],
    king: [i32; 64],
}

impl PieceSquareTable {
    #[verifier::type_invariant]
    spec fn holds_the_tables(self) -> bool {
        &&& self.pawn == PAWN_MG
        &&& self.knight == KNIGHT_MG
        &&& self.bishop == BISHOP_MG
        &&& self.rook == ROOK_MG
        &&& self.queen == QUEEN_MG
        &&& self.king == KING_MG
    }

    /// The entry that this value holds for `role` at position `index`.
    pub closed spec fn entry(&self, role: Role, index: int) -> int {
        match role {
            Role::Pawn => self.pawn@[index] as int,
            Role::Knight => self.knight@[index] as int,
            Role::Bishop => self.bishop@[index] as int,
            Role::Rook => self.rook@[index] as int,
            Role::Queen => self.queen@[index] as int,
            Role::King => self.king@[index] as int,
        }
    }

    /// The tables of this engine.
    pub fn new() -> (pst: Self)
        ensures
            forall|role: Role, index: int| #[trigger] pst.entry(role, index) == bonus(role, index),
    {
        Self {
            pawn: PAWN_MG,
            knight: KNIGHT_MG,
            bishop: BISHOP_MG,
            rook: ROOK_MG,
            queen: QUEEN_MG,
            king: KING_MG,
        }
    }
}

/// Every table entry lies between -30 and 70.
pub proof fn lemma_bonus_bounds(role: Role, index: int)
    requires
        0 <= index < 64,
    ensures
        -30 <= bonus(role, index) <= 70,
{
}

/// The value of a piece of kind `role` and side `color` standing on `square`.
pub fn get_piece_value(pst: &PieceSquareTable, role: Role, color: Color, square: Square) -> (value: i32)
    ensures
        value == piece_value(role, color, square@),
        value == base_value(role) + pst.entry(role, table_index(color, square@)),
{
    proof {
        use_type_invariant(pst);
    }
    let file: usize = square.file() as usize;
    let rank: usize = square.rank() as usize;
    let index: usize = match color {
        Color::White => (7 - rank) * 8 + file,
        Color::Black => rank * 8 + file,
    };
    proof {
        lemma_bonus_bounds(role, index as int);
    }
    let base_value: i32 = match role {
        Role::Pawn => 100,
        Role::Knight => 320,
        Role::Bishop => 330,
        Role::Rook => 500,
        Role::Queen => 900,
        Role::King => 20000,
    };
    let pst_value: i32 = match role {
        Role::Pawn => pst.pawn[index],
        Role::Knight => pst.knight[index],
        Role::Bishop => pst.bishop[index],
        Role::Rook => pst.rook[index],
        Role::Queen => pst.queen[index],
        Role::King => pst.king[index],
    };
    base_value + pst_value
}

} // verus!
