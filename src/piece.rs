use vstd::prelude::*;

verus! {

#[derive(Debug, Clone, Copy, PartialEq, Eq, Structural)]
pub enum Color {
    White,
    Black,
}

#[derive(Debug, Clone, Copy, PartialEq, Eq, Structural)]
pub enum PieceType {
    Pawn,
    Knight,
    Bishop,
    Rook,
    Queen,
    King,
}

/// A piece: its type and color, whether it has moved, and whether it is a
/// pawn that advanced two ranks in the move applied last.
#[derive(Debug, Clone, Copy, PartialEq, Eq, Structural)]
pub struct Piece {
    pub piece_type: PieceType,
    pub color: Color,
    pub doubled_last_turn: bool,
    pub has_moved: bool,
}

impl Color {
    pub open spec fn opponent(self) -> Color {
        match self {
            Color::White => Color::Black,
            Color::Black => Color::White,
        }
    }

    /// The side that moves after this one.
    pub fn other(&self) -> (r: Color)
        ensures
            r == self.opponent(),
    {
        match self {
            Color::White => Color::Black,
            Color::Black => Color::White,
        }
    }

    /// The rank step of a pawn of this color: up the board for White, down for Black.
    pub open spec fn pawn_dir(self) -> int {
        match self {
            Color::White => 1,
            Color::Black => -1,
        }
    }
}

impl Piece {
    /// A piece that has not moved yet.
    pub fn fresh(piece_type: PieceType, color: Color) -> (p: Piece)
        ensures
            p == (Piece { piece_type, color, doubled_last_turn: false, has_moved: false }),
    {
        Piece { piece_type, color, doubled_last_turn: false, has_moved: false }
    }
}

} // verus!
