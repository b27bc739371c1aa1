//! Plain values for what stands on a board: sides, piece kinds, squares.

use vstd::prelude::*;

verus! {

/// One of the two sides.
#[derive(Clone, Copy, Debug, PartialEq, Eq, Structural)]
pub enum Color {
    White,
    Black,
}

impl Color {
    /// The opposing side.
    pub open spec fn opponent(self) -> Color {
        match self {
            Color::White => Color::Black,
            Color::Black => Color::White,
        }
    }

    /// The opposing side.
    pub fn other(self) -> (side: Color)
        ensures
            side == self.opponent(),
    {
        match self {
            Color::White => Color::Black,
            Color::Black => Color::White,
        }
    }
}

/// The six kinds of chess piece.
#[derive(Clone, Copy, Debug, PartialEq, Eq, Structural)]
pub enum Role {
    Pawn,
    Knight,
    Bishop,
    Rook,
    Queen,
    King,
}

/// A piece of some kind belonging to some side.
#[derive(Clone, Copy, Debug, PartialEq, Eq, Structural)]
pub struct Piece {
    pub role: Role,
    pub color: Color,
}

/// A square of the board, numbered 0 (a1) to 63 (h8), rank by rank.
#[derive(Clone, Copy, Debug, PartialEq, Eq, Structural)]
pub struct Square {
    pub(crate) index: u8,
}

impl View for Square {
    type V = int;

    /// The square's number: eight times its rank plus its file.
    closed spec fn view(&self) -> int {
        self.index as int
    }
}

impl Square {
    #[verifier::type_invariant]
    spec fn on_board(self) -> bool {
        self.index < 64
    }

    /// The square with the given number, if there is one.
    pub fn from_index(index: u8) -> (square: Option<Square>)
        ensures
            index < 64 <==> square is Some,
            square matches Some(s) ==> s@ == index,
    {
        if index < 64 {
            Some(Square { index })
        } else {
            None
        }
    }

    /// The square on the given file (0 is the a-file) and rank (0 is the
    /// first rank), if both are on the board.
    pub fn from_coords(file: u8, rank: u8) -> (square: Option<Square>)
        ensures
            (file < 8 && rank < 8) <==> square is Some,
            square matches Some(s) ==> s@ == rank * 8 + file,
    {
        if file < 8 && rank < 8 {
            Some(Square { index: rank * 8 + file })
        } else {
            None
        }
    }

    /// The square's number, 0 to 63.
    pub fn index(&self) -> (index: u8)
        ensures
            index == self@,
            index < 64,
    {
        proof {
            use_type_invariant(self);
        }
        self.index
    }

    /// The square's file, 0 (the a-file) to 7 (the h-file).
    pub fn file(&self) -> (file: u8)
        ensures
            file == self@ % 8,
            0 <= self@ < 64,
    {
        proof {
            use_type_invariant(self);
        }
        self.index % 8
    }

    /// The square's rank, 0 (the first rank) to 7 (the eighth).
    pub fn rank(&self) -> (rank: u8)
        ensures
            rank == self@ / 8,
            0 <= self@ < 64,
    {
        proof {
            use_type_invariant(self);
        }
        self.index / 8
    }
}

} // verus!
