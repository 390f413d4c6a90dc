use vstd::prelude::*;
use crate::types::{BoardError, Move, PieceKind};

verus! {

/// The file letter of column `c`: `a` for 0 up to `h` for 7.
pub open spec fn file_char(c: int) -> char {
    if c == 0 { 'a' }
    else if c == 1 { 'b' }
    else if c == 2 { 'c' }
    else if c == 3 { 'd' }
    else if c == 4 { 'e' }
    else if c == 5 { 'f' }
    else if c == 6 { 'g' }
    else { 'h' }
}

/// The column that a file letter names, if it names one.
pub open spec fn column_of_file(ch: char) -> Option<int> {
    if ch == 'a' { Some(0) }
    else if ch == 'b' { Some(1) }
    else if ch == 'c' { Some(2) }
    else if ch == 'd' { Some(3) }
    else if ch == 'e' { Some(4) }
    else if ch == 'f' { Some(5) }
    else if ch == 'g' { Some(6) }
    else if ch == 'h' { Some(7) }
    else { None }
}

/// The rank digit of row `r`: the digit of `r + 1`.
pub open spec fn rank_char(r: int) -> char {
    if r == 0 { '1' }
    else if r == 1 { '2' }
    else if r == 2 { '3' }
    else if r == 3 { '4' }
    else if r == 4 { '5' }
    else if r == 5 { '6' }
    else if r == 6 { '7' }
    else { '8' }
}

/// The row that a rank digit names, if it names one.
pub open spec fn row_of_rank(ch: char) -> Option<int> {
    if ch == '1' { Some(0) }
    else if ch == '2' { Some(1) }
    else if ch == '3' { Some(2) }
    else if ch == '4' { Some(3) }
    else if ch == '5' { Some(4) }
    else if ch == '6' { Some(5) }
    else if ch == '7' { Some(6) }
    else if ch == '8' { Some(7) }
    else { None }
}

/// The fixed notation letter of each kind; a pawn has none.
pub open spec fn kind_letter(k: PieceKind) -> Seq<char> {
    match k {
        PieceKind::Pawn => seq![],
        PieceKind::Knight => seq!['S'],
        PieceKind::Bishop => seq!['L'],
        PieceKind::Rook => seq!['T'],
        PieceKind::Queen => seq!['D'],
        PieceKind::King => seq!['K'],
    }
}

/// The kind that a notation letter names, if it names one.
pub open spec fn kind_of_letter(ch: char) -> Option<PieceKind> {
    if ch == 'S' { Some(PieceKind::Knight) }
    else if ch == 'L' { Some(PieceKind::Bishop) }
    else if ch == 'T' { Some(PieceKind::Rook) }
    else if ch == 'D' { Some(PieceKind::Queen) }
    else if ch == 'K' { Some(PieceKind::King) }
    else { None }
}

/// The text of a move: piece letter, destination file, destination rank.
pub open spec fn move_text(m: Move) -> Seq<char> {
    kind_letter(m.kind) + seq![file_char(m.to.column as int), rank_char(m.to.row as int)]
}

/// The file letter of a column, or `OutOfBoard` for a column past 7.
pub fn column_to_letter(column: u8) -> (r: Result<String, BoardError>)
    ensures
        column < 8 ==> (r matches Ok(s) && s@ == seq![file_char(column as int)]),
        column >= 8 ==> r == Err::<String, BoardError>(BoardError::OutOfBoard),
{
    if column >= 8 {
        return Err(BoardError::OutOfBoard);
    }
    let t = file_str(column);
    Ok(String::from_str(t))
}

fn file_str(column: u8) -> (r: &'static str)
    requires
        column < 8,
    ensures
        r@ == seq![file_char(column as int)],
{
    proof {
        reveal_strlit("a");
        reveal_strlit("b");
        reveal_strlit("c");
        reveal_strlit("d");
        reveal_strlit("e");
        reveal_strlit("f");
        reveal_strlit("g");
        reveal_strlit("h");
    }
    let r = match column {
        0 => "a",
        1 => "b",
        2 => "c",
        3 => "d",
        4 => "e",
        5 => "f",
        6 => "g",
        _ => "h",
    };
    assert(r@ =~= seq![file_char(column as int)]);
    r
}

fn rank_str(row: u8) -> (r: &'static str)
    requires
        row < 8,
    ensures
        r@ == seq![rank_char(row as int)],
{
    proof {
        reveal_strlit("1");
        reveal_strlit("2");
        reveal_strlit("3");
        reveal_strlit("4");
        reveal_strlit("5");
        reveal_strlit("6");
        reveal_strlit("7");
        reveal_strlit("8");
    }
    let r = match row {
        0 => "1",
        1 => "2",
        2 => "3",
        3 => "4",
        4 => "5",
        5 => "6",
        6 => "7",
        _ => "8",
    };
    assert(r@ =~= seq![rank_char(row as int)]);
    r
}

fn kind_str(k: PieceKind) -> (r: &'static str)
    ensures
        r@ == kind_letter(k),
{
    proof {
        reveal_strlit("");
        reveal_strlit("S");
        reveal_strlit("L");
        reveal_strlit("T");
        reveal_strlit("D");
        reveal_strlit("K");
    }
    let r = match k {
        PieceKind::Pawn => "",
        PieceKind::Knight => "S",
        PieceKind::Bishop => "L",
        PieceKind::Rook => "T",
        PieceKind::Queen => "D",
        PieceKind::King => "K",
    };
    assert(r@ =~= kind_letter(k));
    r
}

/// The notation letter of a piece kind, as text (empty for a pawn).
pub fn kind_to_letter(k: PieceKind) -> (r: String)
    ensures
        r@ == kind_letter(k),
{
    String::from_str(kind_str(k))
}

/// The column named by a file letter, or `OutOfBoard` for any other character.
pub fn letter_to_column(ch: char) -> (r: Result<u8, BoardError>)
    ensures
        column_of_file(ch) matches Some(c) ==> r == Ok::<u8, BoardError>(c as u8),
        column_of_file(ch) is None ==> r == Err::<u8, BoardError>(BoardError::OutOfBoard),
{
    match ch {
        'a' => Ok(0),
        'b' => Ok(1),
        'c' => Ok(2),
        'd' => Ok(3),
        'e' => Ok(4),
        'f' => Ok(5),
        'g' => Ok(6),
        'h' => Ok(7),
        _ => Err(BoardError::OutOfBoard),
    }
}

/// The row named by a rank digit, or `OutOfBoard` for any other character.
pub fn digit_to_row(ch: char) -> (r: Result<u8, BoardError>)
    ensures
        row_of_rank(ch) matches Some(c) ==> r == Ok::<u8, BoardError>(c as u8),
        row_of_rank(ch) is None ==> r == Err::<u8, BoardError>(BoardError::OutOfBoard),
{
    match ch {
        '1' => Ok(0),
        '2' => Ok(1),
        '3' => Ok(2),
        '4' => Ok(3),
        '5' => Ok(4),
        '6' => Ok(5),
        '7' => Ok(6),
        '8' => Ok(7),
        _ => Err(BoardError::OutOfBoard),
    }
}

/// Renders the text of a move, or `OutOfBoard` where its destination is off the board.
pub fn move_to_notation(m: &Move) -> (r: Result<String, BoardError>)
    ensures
        m.to.row < 8 && m.to.column < 8 ==> (r matches Ok(s) && s@ == move_text(*m)),
        !(m.to.row < 8 && m.to.column < 8) ==> r == Err::<String, BoardError>(BoardError::OutOfBoard),
{
    if m.to.row >= 8 || m.to.column >= 8 {
        return Err(BoardError::OutOfBoard);
    }
    let mut s = String::from_str(kind_str(m.kind));
    s.append(file_str(m.to.column));
    s.append(rank_str(m.to.row));
    assert(s@ =~= move_text(*m));
    Ok(s)
}

/// Move `k` of the list is another piece of the same kind that reaches the same destination.
pub open spec fn rival(moves: Seq<Move>, m: Move, k: int) -> bool {
    0 <= k < moves.len() && moves[k].kind == m.kind && moves[k].to == m.to && moves[k].from != m.from
}

pub open spec fn needs_origin(moves: Seq<Move>, m: Move) -> bool {
    exists|k: int| #[trigger] rival(moves, m, k)
}

pub open spec fn file_shared(moves: Seq<Move>, m: Move) -> bool {
    exists|k: int| #[trigger] rival(moves, m, k) && moves[k].from.column == m.from.column
}

pub open spec fn rank_shared(moves: Seq<Move>, m: Move) -> bool {
    exists|k: int| #[trigger] rival(moves, m, k) && moves[k].from.row == m.from.row
}

/// What must stand after the piece letter so that no rival in the list reads the same:
/// nothing without a rival, else the origin file where it tells them apart, else the origin
/// rank where that does, else both.
pub open spec fn origin_text(moves: Seq<Move>, m: Move) -> Seq<char> {
    if !needs_origin(moves, m) {
        seq![]
    } else if !file_shared(moves, m) {
        seq![file_char(m.from.column as int)]
    } else if !rank_shared(moves, m) {
        seq![rank_char(m.from.row as int)]
    } else {
        seq![file_char(m.from.column as int), rank_char(m.from.row as int)]
    }
}

pub open spec fn promotion_text(m: Move) -> Seq<char> {
    match m.promotion {
        Some(k) => kind_letter(k),
        None => seq![],
    }
}

/// The text of a move among the moves of a position: piece letter, the origin where a rival
/// needs it, destination, and the letter of the promoted kind.
pub open spec fn move_text_in(moves: Seq<Move>, m: Move) -> Seq<char> {
    kind_letter(m.kind) + origin_text(moves, m) + seq![file_char(m.to.column as int), rank_char(m.to.row as int)]
        + promotion_text(m)
}

/// Renders move `m` so that no other move of `moves` of the same kind and destination reads
/// the same, or returns `OutOfBoard` where its origin or destination is off the board.
pub fn move_to_notation_in(moves: &Vec<Move>, m: &Move) -> (r: Result<String, BoardError>)
    ensures
        m.from.valid() && m.to.valid() ==> (r matches Ok(s) && s@ == move_text_in(moves@, *m)),
        !(m.from.valid() && m.to.valid()) ==> r == Err::<String, BoardError>(BoardError::OutOfBoard),
{
    if m.from.row >= 8 || m.from.column >= 8 || m.to.row >= 8 || m.to.column >= 8 {
        return Err(BoardError::OutOfBoard);
    }
    let mut any = false;
    let mut same_file = false;
    let mut same_rank = false;
    let mut i: usize = 0;
    while i < moves.len()
        invariant
            i <= moves@.len(),
            any <==> exists|k: int| 0 <= k < i && #[trigger] rival(moves@, *m, k),
            same_file <==> exists|k: int| 0 <= k < i && #[trigger] rival(moves@, *m, k) && moves@[k].from.column == m.from.column,
            same_rank <==> exists|k: int| 0 <= k < i && #[trigger] rival(moves@, *m, k) && moves@[k].from.row == m.from.row,
        decreases moves@.len() - i,
    {
        let o = moves[i];
        if o.kind == m.kind && o.to == m.to && o.from != m.from {
            assert(rival(moves@, *m, i as int));
            any = true;
            if o.from.column == m.from.column {
                same_file = true;
            }
            if o.from.row == m.from.row {
                same_rank = true;
            }
        }
        i = i + 1;
    }
    let mut s = String::from_str(kind_str(m.kind));
    if any {
        if !same_file {
            s.append(file_str(m.from.column));
        } else if !same_rank {
            s.append(rank_str(m.from.row));
        } else {
            s.append(file_str(m.from.column));
            s.append(rank_str(m.from.row));
        }
    }
    s.append(file_str(m.to.column));
    s.append(rank_str(m.to.row));
    match m.promotion {
        Some(k) => s.append(kind_str(k)),
        None => {},
    }
    assert(s@ =~= move_text_in(moves@, *m));
    Ok(s)
}

/// Two moves of a list by different pieces of the same kind to the same square never render
/// to the same text.
pub proof fn lemma_notation_unambiguous(moves: Seq<Move>, i: int, j: int)
    requires
        0 <= i < moves.len(),
        0 <= j < moves.len(),
        moves[i].kind == moves[j].kind,
        moves[i].to == moves[j].to,
        moves[i].from != moves[j].from,
        moves[i].from.valid(),
        moves[j].from.valid(),
    ensures
        move_text_in(moves, moves[i]) != move_text_in(moves, moves[j]),
{
    let a = moves[i];
    let b = moves[j];
    assert(rival(moves, a, j));
    assert(rival(moves, b, i));
    let oa = origin_text(moves, a);
    let ob = origin_text(moves, b);
    let n = kind_letter(a.kind).len() as int;
    let ta = move_text_in(moves, a);
    let tb = move_text_in(moves, b);
    let dest = seq![file_char(a.to.column as int), rank_char(a.to.row as int)];
    assert(ta == kind_letter(a.kind) + oa + dest + promotion_text(a));
    assert(tb == kind_letter(a.kind) + ob + dest + promotion_text(b));
    assert(ta[n] == oa[0]);
    assert(tb[n] == ob[0]);
    assert(ta[n + 1] == (oa + dest)[1]);
    assert(tb[n + 1] == (ob + dest)[1]);
    if !file_shared(moves, a) {
        assert(a.from.column != b.from.column);
    }
    if !file_shared(moves, b) {
        assert(a.from.column != b.from.column);
    }
    if !rank_shared(moves, a) {
        assert(a.from.row != b.from.row);
    }
    if !rank_shared(moves, b) {
        assert(a.from.row != b.from.row);
    }
}

/// Converting a column of the board to its file letter and back gives the column again.
pub proof fn lemma_column_round_trip(c: int)
    requires
        0 <= c < 8,
    ensures
        column_of_file(file_char(c)) == Some(c),
{
}

/// Converting a row of the board to its rank digit and back gives the row again.
pub proof fn lemma_row_round_trip(r: int)
    requires
        0 <= r < 8,
    ensures
        row_of_rank(rank_char(r)) == Some(r),
{
}

} // verus!
