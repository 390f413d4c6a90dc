use vstd::prelude::*;

verus! {

/// The two sides of a game.
#[derive(Clone, Copy, Debug, PartialEq, Eq, Structural)]
pub enum Color {
    White,
    Black,
}

/// The six kinds of chess pieces.
#[derive(Clone, Copy, Debug, PartialEq, Eq, Structural)]
pub enum PieceKind {
    Pawn,
    Knight,
    Bishop,
    Rook,
    Queen,
    King,
}

/// A piece: who owns it and what it is.
#[derive(Clone, Copy, Debug, PartialEq, Eq, Structural)]
pub struct Piece {
    pub color: Color,
    pub kind: PieceKind,
}

/// A board coordinate. Row 0 is White's first rank, column 0 is file `a`.
#[derive(Clone, Copy, Debug, PartialEq, Eq, Structural)]
pub struct Square {
    pub row: u8,
    pub column: u8,
}

/// The moves that move more than one piece or capture off the destination.
#[derive(Clone, Copy, Debug, PartialEq, Eq, Structural)]
pub enum Special {
    CastleKingside,
    CastleQueenside,
    EnPassant,
}

/// A move of one piece, with what it captures, promotes to, or sets off.
#[derive(Clone, Copy, Debug, PartialEq, Eq, Structural)]
pub struct Move {
    pub kind: PieceKind,
    pub from: Square,
    pub to: Square,
    pub capture: bool,
    pub promotion: Option<PieceKind>,
    pub special: Option<Special>,
}

/// Failures of coordinate conversion and text parsing.
#[derive(Clone, Copy, Debug, PartialEq, Eq, Structural)]
pub enum BoardError {
    /// A row or column outside `0..=7`.
    OutOfBoard,
    /// Move text that is empty.
    EmptyInput,
    /// Move text that is not a piece letter followed by a square.
    MalformedInput,
    /// Move text that names no move of the given list.
    NoSuchMove,
}

pub open spec fn on_board(r: int, c: int) -> bool {
    0 <= r < 8 && 0 <= c < 8
}

impl Square {
    pub open spec fn valid(self) -> bool {
        self.row < 8 && self.column < 8
    }

    /// Position of the square in a row-major list of the 64 squares.
    pub open spec fn index(self) -> int {
        self.row as int * 8 + self.column as int
    }
}

/// The square at row `r` and column `c`.
pub open spec fn sq(r: int, c: int) -> Square {
    Square { row: r as u8, column: c as u8 }
}

pub open spec fn opponent(c: Color) -> Color {
    match c {
        Color::White => Color::Black,
        Color::Black => Color::White,
    }
}

/// The other side.
pub fn other(c: Color) -> (r: Color)
    ensures
        r == opponent(c),
{
    match c {
        Color::White => Color::Black,
        Color::Black => Color::White,
    }
}

} // verus!
