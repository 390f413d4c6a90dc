use vstd::prelude::*;
use crate::types::{on_board, opponent, sq, BoardError, Color, Move, Piece, PieceKind, Special, Square};

verus! {

/// A position: 64 squares in row-major order, the side to move, castling rights and the
/// en-passant target.
pub struct BoardState {
    pub squares: Vec<Option<Piece>>,
    pub turn: Color,
    pub white_kingside: bool,
    pub white_queenside: bool,
    pub black_kingside: bool,
    pub black_queenside: bool,
    pub en_passant: Option<Square>,
}

/// The mathematical value of a position.
pub struct BoardView {
    pub squares: Seq<Option<Piece>>,
    pub turn: Color,
    pub white_kingside: bool,
    pub white_queenside: bool,
    pub black_kingside: bool,
    pub black_queenside: bool,
    pub en_passant: Option<Square>,
}

impl View for BoardState {
    type V = BoardView;

    open spec fn view(&self) -> BoardView {
        BoardView {
            squares: self.squares@,
            turn: self.turn,
            white_kingside: self.white_kingside,
            white_queenside: self.white_queenside,
            black_kingside: self.black_kingside,
            black_queenside: self.black_queenside,
            en_passant: self.en_passant,
        }
    }
}

/// The row on which a color's king and rooks start.
pub open spec fn home_row(c: Color) -> int {
    if c == Color::White { 0 } else { 7 }
}

/// The row step of a color's pawns.
pub open spec fn pawn_dir(c: Color) -> int {
    if c == Color::White { 1 } else { -1 }
}

/// The row from which a color's pawns may advance two squares.
pub open spec fn pawn_start_row(c: Color) -> int {
    if c == Color::White { 1 } else { 6 }
}

/// The row on which a color's pawns promote.
pub open spec fn last_row(c: Color) -> int {
    if c == Color::White { 7 } else { 0 }
}

impl BoardView {
    pub open spec fn wf(self) -> bool {
        &&& self.squares.len() == 64
        &&& (self.en_passant matches Some(s) ==> s.valid())
    }

    pub open spec fn at(self, r: int, c: int) -> Option<Piece> {
        self.squares[r * 8 + c]
    }

    pub open spec fn empty(self, r: int, c: int) -> bool {
        self.at(r, c) is None
    }

    /// Square `(r, c)` holds a piece of color `color`.
    pub open spec fn holds(self, r: int, c: int, color: Color) -> bool {
        self.at(r, c) matches Some(p) && p.color == color
    }

    pub open spec fn kingside_right(self, c: Color) -> bool {
        if c == Color::White { self.white_kingside } else { self.black_kingside }
    }

    pub open spec fn queenside_right(self, c: Color) -> bool {
        if c == Color::White { self.white_queenside } else { self.black_queenside }
    }

    /// The squares after move `m`: the piece leaves its origin and lands (promoted, if so)
    /// on the destination; an en-passant capture also clears the passed pawn, and castling
    /// also moves the rook.
    pub open spec fn moved_squares(self, m: Move) -> Seq<Option<Piece>> {
        let from = m.from.index();
        let to = m.to.index();
        let p = self.squares[from];
        let landed = match (p, m.promotion) {
            (Some(pc), Some(k)) => Some(Piece { color: pc.color, kind: k }),
            _ => p,
        };
        let base = self.squares.update(from, None).update(to, landed);
        let r = m.from.row as int;
        match m.special {
            Some(Special::EnPassant) => base.update(r * 8 + m.to.column as int, None),
            Some(Special::CastleKingside) => base.update(r * 8 + 7, None).update(r * 8 + 5, self.squares[r * 8 + 7]),
            Some(Special::CastleQueenside) => base.update(r * 8, None).update(r * 8 + 3, self.squares[r * 8]),
            None => base,
        }
    }

    /// A castling right survives a move unless the move starts or ends on the corner that
    /// the right depends on, or moves that side's king.
    pub open spec fn keeps_right(self, m: Move, c: Color, corner: int) -> bool {
        let home = home_row(c);
        !(m.from == sq(home, 4) || m.from == sq(home, corner) || m.to == sq(home, corner))
    }

    /// The position after move `m`.
    pub open spec fn apply(self, m: Move) -> BoardView {
        let mover = match self.squares[m.from.index()] {
            Some(p) => p.color,
            None => self.turn,
        };
        let double = m.kind == PieceKind::Pawn && (m.to.row as int - m.from.row as int == 2
            || m.from.row as int - m.to.row as int == 2);
        BoardView {
            squares: self.moved_squares(m),
            turn: opponent(mover),
            white_kingside: self.white_kingside && self.keeps_right(m, Color::White, 7),
            white_queenside: self.white_queenside && self.keeps_right(m, Color::White, 0),
            black_kingside: self.black_kingside && self.keeps_right(m, Color::Black, 7),
            black_queenside: self.black_queenside && self.keeps_right(m, Color::Black, 0),
            en_passant: if double {
                Some(sq((m.from.row as int + m.to.row as int) / 2, m.from.column as int))
            } else {
                None
            },
        }
    }
}

/// The piece that the standard opening position has on back-rank column `c`.
pub open spec fn back_rank_kind(c: int) -> PieceKind {
    if c == 0 || c == 7 { PieceKind::Rook }
    else if c == 1 || c == 6 { PieceKind::Knight }
    else if c == 2 || c == 5 { PieceKind::Bishop }
    else if c == 3 { PieceKind::Queen }
    else { PieceKind::King }
}

/// What the standard opening position has on square `(r, c)`.
pub open spec fn initial_at(r: int, c: int) -> Option<Piece> {
    if r == 0 { Some(Piece { color: Color::White, kind: back_rank_kind(c) }) }
    else if r == 1 { Some(Piece { color: Color::White, kind: PieceKind::Pawn }) }
    else if r == 6 { Some(Piece { color: Color::Black, kind: PieceKind::Pawn }) }
    else if r == 7 { Some(Piece { color: Color::Black, kind: back_rank_kind(c) }) }
    else { None }
}

fn back_rank_piece(color: Color, c: u8) -> (r: Option<Piece>)
    requires
        c < 8,
    ensures
        r == Some(Piece { color, kind: back_rank_kind(c as int) }),
{
    let kind = match c {
        0 | 7 => PieceKind::Rook,
        1 | 6 => PieceKind::Knight,
        2 | 5 => PieceKind::Bishop,
        3 => PieceKind::Queen,
        _ => PieceKind::King,
    };
    Some(Piece { color, kind })
}

/// The standard opening position: White to move, all castling rights, no en-passant target.
pub fn initialize_board() -> (b: BoardState)
    ensures
        b@.wf(),
        forall|r: int, c: int| on_board(r, c) ==> #[trigger] b@.at(r, c) == initial_at(r, c),
        b.turn == Color::White,
        b.white_kingside && b.white_queenside && b.black_kingside && b.black_queenside,
        b.en_passant is None,
{
    let mut squares: Vec<Option<Piece>> = Vec::new();
    let mut r: u8 = 0;
    while r < 8
        invariant
            r <= 8,
            squares@.len() == r as int * 8,
            forall|i: int, j: int| 0 <= i < r && 0 <= j < 8 ==> #[trigger] squares@[i * 8 + j] == initial_at(i, j),
        decreases 8 - r,
    {
        let mut c: u8 = 0;
        while c < 8
            invariant
                r < 8,
                c <= 8,
                squares@.len() == r as int * 8 + c as int,
                forall|i: int, j: int| 0 <= i < r && 0 <= j < 8 ==> #[trigger] squares@[i * 8 + j] == initial_at(i, j),
                forall|j: int| 0 <= j < c ==> #[trigger] squares@[r as int * 8 + j] == initial_at(r as int, j),
            decreases 8 - c,
        {
            let p = if r == 0 {
                back_rank_piece(Color::White, c)
            } else if r == 1 {
                Some(Piece { color: Color::White, kind: PieceKind::Pawn })
            } else if r == 6 {
                Some(Piece { color: Color::Black, kind: PieceKind::Pawn })
            } else if r == 7 {
                back_rank_piece(Color::Black, c)
            } else {
                None
            };
            squares.push(p);
            c = c + 1;
        }
        assert forall|i: int, j: int| 0 <= i < r + 1 && 0 <= j < 8 implies #[trigger] squares@[i * 8 + j] == initial_at(i, j) by {
            if i == r {
                assert(squares@[r as int * 8 + j] == initial_at(r as int, j));
            }
        }
        r = r + 1;
    }
    BoardState {
        squares,
        turn: Color::White,
        white_kingside: true,
        white_queenside: true,
        black_kingside: true,
        black_queenside: true,
        en_passant: None,
    }
}

impl BoardState {
    /// An empty board with the given side to move, no castling rights and no en-passant
    /// target.
    pub fn empty_board(turn: Color) -> (b: BoardState)
        ensures
            b@.wf(),
            forall|i: int| 0 <= i < 64 ==> #[trigger] b@.squares[i] is None,
            b.turn == turn,
            !b.white_kingside && !b.white_queenside && !b.black_kingside && !b.black_queenside,
            b.en_passant is None,
    {
        let mut squares: Vec<Option<Piece>> = Vec::new();
        let mut i: usize = 0;
        while i < 64
            invariant
                i <= 64,
                squares@.len() == i,
                forall|j: int| 0 <= j < i ==> #[trigger] squares@[j] is None,
            decreases 64 - i,
        {
            squares.push(None);
            i = i + 1;
        }
        BoardState {
            squares,
            turn,
            white_kingside: false,
            white_queenside: false,
            black_kingside: false,
            black_queenside: false,
            en_passant: None,
        }
    }

    /// What square `(row, column)` holds.
    pub fn piece_at(&self, row: u8, column: u8) -> (r: Option<Piece>)
        requires
            self@.wf(),
            row < 8,
            column < 8,
        ensures
            r == self@.at(row as int, column as int),
    {
        self.squares[row as usize * 8 + column as usize]
    }

    /// What square `(row, column)` holds, or `OutOfBoard` for a coordinate past 7.
    pub fn get(&self, row: u8, column: u8) -> (r: Result<Option<Piece>, BoardError>)
        requires
            self@.wf(),
        ensures
            row < 8 && column < 8 ==> r == Ok::<Option<Piece>, BoardError>(self@.at(row as int, column as int)),
            !(row < 8 && column < 8) ==> r == Err::<Option<Piece>, BoardError>(BoardError::OutOfBoard),
    {
        if row >= 8 || column >= 8 {
            return Err(BoardError::OutOfBoard);
        }
        Ok(self.piece_at(row, column))
    }

    /// Puts `piece` (or nothing) on square `(row, column)`, or returns `OutOfBoard` and leaves
    /// the board unchanged for a coordinate past 7.
    pub fn set(&mut self, row: u8, column: u8, piece: Option<Piece>) -> (r: Result<(), BoardError>)
        requires
            old(self)@.wf(),
        ensures
            row < 8 && column < 8 ==> r is Ok && final(self)@ == (BoardView {
                squares: old(self)@.squares.update(row as int * 8 + column as int, piece),
                ..old(self)@
            }),
            !(row < 8 && column < 8) ==> r == Err::<(), BoardError>(BoardError::OutOfBoard) && final(self)@ == old(self)@,
    {
        if row >= 8 || column >= 8 {
            return Err(BoardError::OutOfBoard);
        }
        self.squares.set(row as usize * 8 + column as usize, piece);
        Ok(())
    }

    /// The position after move `m`, which moves a piece from a square of the board to a
    /// square of the board.
    pub fn apply_move(&self, m: &Move) -> (r: BoardState)
        requires
            self@.wf(),
            m.from.valid(),
            m.to.valid(),
        ensures
            r@ == self@.apply(*m),
            r@.wf(),
    {
        let mut squares: Vec<Option<Piece>> = Vec::new();
        let mut i: usize = 0;
        while i < 64
            invariant
                self@.wf(),
                i <= 64,
                squares@ == self.squares@.subrange(0, i as int),
            decreases 64 - i,
        {
            squares.push(self.squares[i]);
            i = i + 1;
            assert(squares@ =~= self.squares@.subrange(0, i as int));
        }
        assert(squares@ =~= self.squares@);
        let from = m.from.row as usize * 8 + m.from.column as usize;
        let to = m.to.row as usize * 8 + m.to.column as usize;
        let p = self.squares[from];
        let landed = match (p, m.promotion) {
            (Some(pc), Some(k)) => Some(Piece { color: pc.color, kind: k }),
            _ => p,
        };
        squares.set(from, None);
        squares.set(to, landed);
        let r = m.from.row as usize;
        match m.special {
            Some(Special::EnPassant) => {
                squares.set(r * 8 + m.to.column as usize, None);
            },
            Some(Special::CastleKingside) => {
                squares.set(r * 8 + 7, None);
                squares.set(r * 8 + 5, self.squares[r * 8 + 7]);
            },
            Some(Special::CastleQueenside) => {
                squares.set(r * 8, None);
                squares.set(r * 8 + 3, self.squares[r * 8]);
            },
            None => {},
        }
        let mover = match p {
            Some(pc) => pc.color,
            None => self.turn,
        };
        let double = (m.kind == PieceKind::Pawn) && (m.to.row as i16 - m.from.row as i16 == 2
            || m.from.row as i16 - m.to.row as i16 == 2);
        let wk = self.white_kingside && keeps(m, 0, 7);
        let wq = self.white_queenside && keeps(m, 0, 0);
        let bk = self.black_kingside && keeps(m, 7, 7);
        let bq = self.black_queenside && keeps(m, 7, 0);
        let ep = if double {
            Some(Square { row: ((m.from.row as u16 + m.to.row as u16) / 2) as u8, column: m.from.column })
        } else {
            None
        };
        let b = BoardState {
            squares,
            turn: crate::types::other(mover),
            white_kingside: wk,
            white_queenside: wq,
            black_kingside: bk,
            black_queenside: bq,
            en_passant: ep,
        };
        assert(b@.squares =~= self@.moved_squares(*m));
        b
    }
}

fn keeps(m: &Move, home: u8, corner: u8) -> (r: bool)
    requires
        home == 0 || home == 7,
        corner == 0 || corner == 7,
    ensures
        r == !(m.from == sq(home as int, 4) || m.from == sq(home as int, corner as int) || m.to == sq(home as int, corner as int)),
{
    !((m.from.row == home && m.from.column == 4) || (m.from.row == home && m.from.column == corner)
        || (m.to.row == home && m.to.column == corner))
}

} // verus!
