use vstd::prelude::*;
use vstd::string::StrSliceExecFns;
use crate::types::{sq, BoardError, Move, PieceKind, Square};
use crate::notation::{column_of_file, digit_to_row, kind_of_letter, letter_to_column, row_of_rank};

verus! {

/// Splits move text into the piece kind its first letter names and the rest; text that does
/// not start with a piece letter is a pawn move, all of it the rest.
pub open spec fn split_kind(s: Seq<char>) -> (PieceKind, Seq<char>) {
    if s.len() > 0 && kind_of_letter(s[0]) is Some {
        (kind_of_letter(s[0])->0, s.drop_first())
    } else {
        (PieceKind::Pawn, s)
    }
}

/// The square that two characters, file then rank, name.
pub open spec fn square_of_text(s: Seq<char>) -> Option<Square> {
    if s.len() == 2 && column_of_file(s[0]) is Some && row_of_rank(s[1]) is Some {
        Some(sq(row_of_rank(s[1])->0, column_of_file(s[0])->0))
    } else {
        None
    }
}

/// The piece kind that a notation letter names.
pub fn letter_to_kind(ch: char) -> (r: Option<PieceKind>)
    ensures
        r == kind_of_letter(ch),
{
    match ch {
        'S' => Some(PieceKind::Knight),
        'L' => Some(PieceKind::Bishop),
        'T' => Some(PieceKind::Rook),
        'D' => Some(PieceKind::Queen),
        'K' => Some(PieceKind::King),
        _ => None,
    }
}

/// The piece kind that move text starts with, and the text after it; `EmptyInput` for empty
/// text.
pub fn user_input_to_type_and_rest_of_user_input(user_input: String) -> (r: Result<(PieceKind, String), BoardError>)
    ensures
        user_input@.len() == 0 ==> r == Err::<(PieceKind, String), BoardError>(BoardError::EmptyInput),
        user_input@.len() > 0 ==> (r matches Ok((k, rest)) && (k, rest@) == split_kind(user_input@)),
{
    let s = user_input.as_str();
    let n = s.unicode_len();
    if n == 0 {
        return Err(BoardError::EmptyInput);
    }
    match letter_to_kind(s.get_char(0)) {
        Some(k) => {
            let rest = String::from_str(s.substring_char(1, n));
            assert(rest@ =~= user_input@.drop_first());
            Ok((k, rest))
        },
        None => Ok((PieceKind::Pawn, user_input)),
    }
}

/// The square that two characters, file then rank, name: `MalformedInput` for text of
/// another length, `OutOfBoard` for characters that name no file or rank.
pub fn text_to_square(text: &str) -> (r: Result<Square, BoardError>)
    ensures
        square_of_text(text@) matches Some(s) ==> r == Ok::<Square, BoardError>(s),
        text@.len() != 2 ==> r == Err::<Square, BoardError>(BoardError::MalformedInput),
        text@.len() == 2 && square_of_text(text@) is None ==> r == Err::<Square, BoardError>(BoardError::OutOfBoard),
{
    if text.unicode_len() != 2 {
        return Err(BoardError::MalformedInput);
    }
    let column = match letter_to_column(text.get_char(0)) {
        Ok(c) => c,
        Err(e) => return Err(e),
    };
    let row = match digit_to_row(text.get_char(1)) {
        Ok(r) => r,
        Err(e) => return Err(e),
    };
    Ok(Square { row, column })
}

/// The first move of `moves` with piece kind `kind` and destination `to`, or `NoSuchMove`.
pub fn find_move(moves: &Vec<Move>, kind: PieceKind, to: Square) -> (r: Result<Move, BoardError>)
    ensures
        r matches Ok(m) ==> moves@.contains(m) && m.kind == kind && m.to == to,
        r is Err <==> r == Err::<Move, BoardError>(BoardError::NoSuchMove),
        r is Err <==> !(exists|m: Move| #[trigger] moves@.contains(m) && m.kind == kind && m.to == to),
{
    let mut i: usize = 0;
    while i < moves.len()
        invariant
            i <= moves@.len(),
            forall|k: int| 0 <= k < i ==> !((#[trigger] moves@[k]).kind == kind && moves@[k].to == to),
        decreases moves@.len() - i,
    {
        if moves[i].kind == kind && moves[i].to == to {
            assert(moves@.contains(moves@[i as int]));
            return Ok(moves[i]);
        }
        i = i + 1;
    }
    assert forall|m: Move| #[trigger] moves@.contains(m) implies !(m.kind == kind && m.to == to) by {
        let k = choose|k: int| 0 <= k < moves@.len() && moves@[k] == m;
    }
    Err(BoardError::NoSuchMove)
}

/// The move of `moves` that move text such as `Se5` or `e4` names: the piece letter (none
/// for a pawn) and the destination square.
pub fn user_input_to_move(user_input: String, moves: &Vec<Move>) -> (r: Result<Move, BoardError>)
    ensures
        user_input@.len() == 0 ==> r == Err::<Move, BoardError>(BoardError::EmptyInput),
        user_input@.len() > 0 && split_kind(user_input@).1.len() != 2 ==> r == Err::<Move, BoardError>(BoardError::MalformedInput),
        user_input@.len() > 0 && split_kind(user_input@).1.len() == 2 && square_of_text(split_kind(user_input@).1) is None
            ==> r == Err::<Move, BoardError>(BoardError::OutOfBoard),
        square_of_text(split_kind(user_input@).1) matches Some(s) ==> {
            let k = split_kind(user_input@).0;
            &&& (r matches Ok(m) ==> moves@.contains(m) && m.kind == k && m.to == s)
            &&& (r is Err <==> !(exists|m: Move| #[trigger] moves@.contains(m) && m.kind == k && m.to == s))
            &&& (r is Err ==> r == Err::<Move, BoardError>(BoardError::NoSuchMove))
        },
{
    let (kind, rest) = match user_input_to_type_and_rest_of_user_input(user_input) {
        Ok(parts) => parts,
        Err(e) => return Err(e),
    };
    let to = match text_to_square(rest.as_str()) {
        Ok(s) => s,
        Err(e) => return Err(e),
    };
    find_move(moves, kind, to)
}

} // verus!
