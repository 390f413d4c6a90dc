use vstd::prelude::*;
use crate::types::{on_board, opponent, sq, Color, Move, Piece, PieceKind, Special, Square};
use crate::board::{last_row, BoardState, BoardView};
use crate::rules::{attacked, attacker, attacks_from, is_square_attacked, plain_move, pseudo_legal};
use crate::movegen::{pseudo_legal_moves, rule_seq};

verus! {

/// A king of `color` stands on `(r, c)` and is attacked by the other side.
pub open spec fn king_attacked_at(v: BoardView, r: int, c: int, color: Color) -> bool {
    on_board(r, c) && v.at(r, c) == Some(Piece { color, kind: PieceKind::King })
        && attacked(v, r, c, opponent(color))
}

/// The king of `color` is attacked.
pub open spec fn in_check(v: BoardView, color: Color) -> bool {
    exists|r: int, c: int| #[trigger] king_attacked_at(v, r, c, color)
}

/// `m` is a move of a piece of `color`, allowed by its rule, after which the king of
/// `color` is not attacked.
pub open spec fn legal(v: BoardView, color: Color, m: Move) -> bool {
    &&& m.from.valid()
    &&& v.at(m.from.row as int, m.from.column as int) matches Some(p)
    &&& p.color == color
    &&& pseudo_legal(v, p, m.from, m)
    &&& !in_check(v.apply(m), color)
}

/// Piece `p` of color `by` on `(r, c)` has a pseudo-legal move, other than castling, onto
/// `(tr, tc)`.
pub open spec fn moves_onto(v: BoardView, r: int, c: int, tr: int, tc: int, by: Color) -> bool {
    on_board(r, c) && (v.at(r, c) matches Some(p) && p.color == by && exists|m: Move|
        #[trigger] pseudo_legal(v, p, sq(r, c), m) && m.to == sq(tr, tc)
            && m.special != Some(Special::CastleKingside) && m.special != Some(Special::CastleQueenside))
}

/// On a square that holds a piece of the other side, being attacked by a piece is having a
/// pseudo-legal move of that piece, castling aside, land there.
pub proof fn lemma_attacker_moves_onto(v: BoardView, r: int, c: int, tr: int, tc: int, by: Color)
    requires
        v.wf(),
        on_board(tr, tc),
        v.holds(tr, tc, opponent(by)),
    ensures
        attacker(v, r, c, tr, tc, by) <==> moves_onto(v, r, c, tr, tc, by),
{
    if on_board(r, c) && v.at(r, c) is Some && v.at(r, c)->0.color == by {
        let p = v.at(r, c)->0;
        let from = sq(r, c);
        let to = sq(tr, tc);
        assert(to.row as int == tr && to.column as int == tc);
        assert(from.row as int == r && from.column as int == c);
        if attacker(v, r, c, tr, tc, by) {
            let m = if p.kind == PieceKind::Pawn {
                Move {
                    kind: PieceKind::Pawn,
                    from,
                    to,
                    capture: true,
                    promotion: if tr == last_row(by) { Some(PieceKind::Queen) } else { None },
                    special: None,
                }
            } else {
                plain_move(v, p, from, to)
            };
            assert(pseudo_legal(v, p, from, m));
        }
        if moves_onto(v, r, c, tr, tc, by) {
            let m = choose|m: Move| #[trigger] pseudo_legal(v, p, sq(r, c), m) && m.to == sq(tr, tc)
                && m.special != Some(Special::CastleKingside) && m.special != Some(Special::CastleQueenside);
            if p.kind == PieceKind::Pawn {
                assert(attacks_from(v, p, from, tr, tc));
            }
            assert(attacker(v, r, c, tr, tc, by));
        }
    }
}

/// A square holding a piece of the other side is attacked by `by` exactly when some piece of
/// `by` has a pseudo-legal move, castling aside, onto it.
pub proof fn lemma_attacked_iff_moved_onto(v: BoardView, tr: int, tc: int, by: Color)
    requires
        v.wf(),
        on_board(tr, tc),
        v.holds(tr, tc, opponent(by)),
    ensures
        attacked(v, tr, tc, by) <==> exists|r: int, c: int| #[trigger] moves_onto(v, r, c, tr, tc, by),
{
    if attacked(v, tr, tc, by) {
        let (r, c) = choose|r: int, c: int| #[trigger] attacker(v, r, c, tr, tc, by);
        lemma_attacker_moves_onto(v, r, c, tr, tc, by);
    }
    if exists|r: int, c: int| #[trigger] moves_onto(v, r, c, tr, tc, by) {
        let (r, c) = choose|r: int, c: int| #[trigger] moves_onto(v, r, c, tr, tc, by);
        lemma_attacker_moves_onto(v, r, c, tr, tc, by);
    }
}

/// Every pseudo-legal move starts on its piece's square and ends on the board.
pub proof fn lemma_pseudo_legal_squares(v: BoardView, p: Piece, from: Square, m: Move)
    requires
        from.valid(),
        pseudo_legal(v, p, from, m),
    ensures
        m.from == from,
        m.to.valid(),
{
}

/// Whether the king of `color` is attacked.
pub fn is_king_in_check(b: &BoardState, color: Color) -> (r: bool)
    requires
        b@.wf(),
    ensures
        r == in_check(b@, color),
{
    let king = Some(Piece { color, kind: PieceKind::King });
    let opp = crate::types::other(color);
    let mut row: u8 = 0;
    while row < 8
        invariant
            b@.wf(),
            row <= 8,
            opp == opponent(color),
            king == Some(Piece { color, kind: PieceKind::King }),
            forall|i: int, j: int| 0 <= i < row ==> !#[trigger] king_attacked_at(b@, i, j, color),
        decreases 8 - row,
    {
        let mut col: u8 = 0;
        while col < 8
            invariant
                b@.wf(),
                row < 8,
                col <= 8,
                opp == opponent(color),
                king == Some(Piece { color, kind: PieceKind::King }),
                forall|i: int, j: int| 0 <= i < row ==> !#[trigger] king_attacked_at(b@, i, j, color),
                forall|j: int| 0 <= j < col ==> !#[trigger] king_attacked_at(b@, row as int, j, color),
            decreases 8 - col,
        {
            if b.piece_at(row, col) == king && is_square_attacked(b, row as i8, col as i8, opp) {
                assert(king_attacked_at(b@, row as int, col as int, color));
                return true;
            }
            col = col + 1;
        }
        assert forall|i: int, j: int| 0 <= i < row + 1 implies !#[trigger] king_attacked_at(b@, i, j, color) by {
            if i == row && 0 <= j < 8 {
                assert(!king_attacked_at(b@, row as int, j, color));
            }
        }
        row = row + 1;
    }
    false
}

/// The moves of `s`, in order, after which the king of `color` is not attacked.
pub open spec fn keep_safe(v: BoardView, color: Color, s: Seq<Move>) -> Seq<Move>
    decreases s.len(),
{
    if s.len() == 0 {
        s
    } else {
        let rest = keep_safe(v, color, s.drop_last());
        if in_check(v.apply(s.last()), color) { rest } else { rest.push(s.last()) }
    }
}

/// The legal moves of side `turn` from square `(r, c)`, in the order its piece's rule produces
/// them.
pub open spec fn square_seq(v: BoardView, turn: Color, r: int, c: int) -> Seq<Move> {
    match v.at(r, c) {
        Some(p) => if p.color == turn { keep_safe(v, turn, rule_seq(v, p, sq(r, c))) } else { Seq::empty() },
        None => Seq::empty(),
    }
}

/// The legal moves of side `turn` from the first `n` squares of row `r`, square by square.
pub open spec fn row_seq(v: BoardView, turn: Color, r: int, n: nat) -> Seq<Move>
    decreases n,
{
    if n == 0 { Seq::empty() } else { row_seq(v, turn, r, (n - 1) as nat) + square_seq(v, turn, r, n - 1) }
}

/// The legal moves of side `turn` from the first `n` rows, row by row.
pub open spec fn board_seq(v: BoardView, turn: Color, n: nat) -> Seq<Move>
    decreases n,
{
    if n == 0 { Seq::empty() } else { board_seq(v, turn, (n - 1) as nat) + row_seq(v, turn, n - 1, 8) }
}

/// The pseudo-legal moves of `piece` on `position` after which its king is not attacked, in
/// rule order.
fn safe_moves(board: &BoardState, piece: Piece, position: Square) -> (r: Vec<Move>)
    requires
        board@.wf(),
        position.valid(),
    ensures
        r@ == keep_safe(board@, piece.color, rule_seq(board@, piece, position)),
        forall|m: Move| #[trigger] r@.contains(m) <==> pseudo_legal(board@, piece, position, m)
            && !in_check(board@.apply(m), piece.color),
        forall|k: int| 0 <= k < r@.len() ==> (#[trigger] r@[k]).from == position,
        r@.no_duplicates(),
{
    let cands = pseudo_legal_moves(board, piece, position);
    let mut out: Vec<Move> = Vec::new();
    let mut i: usize = 0;
    while i < cands.len()
        invariant
            board@.wf(),
            position.valid(),
            i <= cands@.len(),
            forall|m: Move| #[trigger] cands@.contains(m) <==> pseudo_legal(board@, piece, position, m),
            cands@.no_duplicates(),
            forall|m: Move| #[trigger] out@.contains(m) <==> cands@.subrange(0, i as int).contains(m)
                && !in_check(board@.apply(m), piece.color),
            forall|k: int| 0 <= k < out@.len() ==> (#[trigger] out@[k]).from == position,
            out@.no_duplicates(),
            cands@ == rule_seq(board@, piece, position),
            out@ == keep_safe(board@, piece.color, cands@.subrange(0, i as int)),
        decreases cands@.len() - i,
    {
        let m = cands[i];
        proof {
            assert(cands@.contains(m));
            lemma_pseudo_legal_squares(board@, piece, position, m);
        }
        let next = board.apply_move(&m);
        let ghost prev = out@;
        let ghost s0 = cands@.subrange(0, i as int);
        let ghost s1 = cands@.subrange(0, i + 1);
        assert(s1.drop_last() =~= s0);
        assert(s1.last() == m);
        if !is_king_in_check(&next, piece.color) {
            proof {
                if prev.contains(m) {
                    assert(s0.contains(m));
                    let k = choose|k: int| 0 <= k < s0.len() && s0[k] == m;
                    assert(cands@[k] == cands@[i as int]);
                }
            }
            out.push(m);
            assert forall|a: int, c: int| 0 <= a < c < out@.len() implies out@[a] != out@[c] by {
                if c == prev.len() {
                    assert(prev.contains(prev[a]));
                }
            }
        }
        assert forall|x: Move| #[trigger] out@.contains(x) <==> cands@.subrange(0, i + 1).contains(x)
            && !in_check(board@.apply(x), piece.color) by {
            if s1.contains(x) {
                let k = choose|k: int| 0 <= k < s1.len() && s1[k] == x;
                if k < i {
                    assert(s0[k] == x);
                }
            }
            if s0.contains(x) {
                let k = choose|k: int| 0 <= k < s0.len() && s0[k] == x;
                assert(s1[k] == x);
            }
            assert(s1[i as int] == m);
            if out@.contains(x) && !prev.contains(x) {
                let k = choose|k: int| 0 <= k < out@.len() && out@[k] == x;
                assert(k == prev.len());
            }
            if prev.contains(x) && out@ != prev {
                let k = choose|k: int| 0 <= k < prev.len() && prev[k] == x;
                assert(out@[k] == x);
            }
            if x == m && out@ != prev {
                assert(out@[prev.len() as int] == x);
            }
        }
        i = i + 1;
    }
    assert(cands@.subrange(0, cands@.len() as int) =~= cands@);
    out
}

/// The moves that the rule of `piece` allows from `position`: pseudo-legal, before any check
/// of its king's safety, in rule order.
pub fn get_legal_moves_for_piece(board: &BoardState, piece: Piece, position: Square) -> (r: Vec<Move>)
    requires
        board@.wf(),
        position.valid(),
    ensures
        forall|m: Move| #[trigger] r@.contains(m) <==> pseudo_legal(board@, piece, position, m),
        r@.no_duplicates(),
        forall|k: int| 0 <= k < r@.len() ==> (#[trigger] r@[k]).from == position,
        r@ == rule_seq(board@, piece, position),
{
    pseudo_legal_moves(board, piece, position)
}

/// The moves that the pawn rule allows a pawn of `color` on `position`: pseudo-legal, before
/// any check of its king's safety, in rule order.
pub fn get_legal_pawn_moves(board: &BoardState, color: Color, position: Square) -> (r: Vec<Move>)
    requires
        board@.wf(),
        position.valid(),
    ensures
        forall|m: Move| #[trigger] r@.contains(m) <==> pseudo_legal(board@, Piece { color, kind: PieceKind::Pawn }, position, m),
        r@.no_duplicates(),
        forall|k: int| 0 <= k < r@.len() ==> (#[trigger] r@[k]).from == position,
        r@ == rule_seq(board@, Piece { color, kind: PieceKind::Pawn }, position),
{
    pseudo_legal_moves(board, Piece { color, kind: PieceKind::Pawn }, position)
}

proof fn lemma_contains_concat(a: Seq<Move>, b: Seq<Move>, x: Move)
    ensures
        (a + b).contains(x) <==> a.contains(x) || b.contains(x),
{
    let s = a + b;
    if s.contains(x) {
        let k = choose|k: int| 0 <= k < s.len() && s[k] == x;
        if k >= a.len() {
            assert(b[k - a.len()] == x);
        }
    }
    if a.contains(x) {
        let k = choose|k: int| 0 <= k < a.len() && a[k] == x;
        assert(s[k] == x);
    }
    if b.contains(x) {
        let k = choose|k: int| 0 <= k < b.len() && b[k] == x;
        assert(s[k + a.len()] == x);
    }
}

/// All legal moves of side `turn`: for each square in row-major order (ascending row, then
/// column) that holds a piece of `turn`, the moves of its rule after which the king of `turn`
/// is not attacked, in rule order.
pub fn get_legal_moves_for_all_pieces(board: &BoardState, turn: Color) -> (r: Vec<Move>)
    requires
        board@.wf(),
    ensures
        forall|m: Move| #[trigger] r@.contains(m) <==> legal(board@, turn, m),
        forall|i: int, j: int| 0 <= i < j < r@.len() ==> (#[trigger] r@[i]).from.index() <= (#[trigger] r@[j]).from.index(),
        r@.no_duplicates(),
        r@ == board_seq(board@, turn, 8),
{
    let ghost v = board@;
    let mut out: Vec<Move> = Vec::new();
    let mut row: u8 = 0;
    assert(out@ =~= board_seq(v, turn, 0));
    while row < 8
        invariant
            v == board@,
            v.wf(),
            row <= 8,
            forall|m: Move| #[trigger] out@.contains(m) <==> legal(v, turn, m) && m.from.index() < row as int * 8,
            forall|k: int| 0 <= k < out@.len() ==> (#[trigger] out@[k]).from.index() < row as int * 8,
            forall|i: int, j: int| 0 <= i < j < out@.len() ==> (#[trigger] out@[i]).from.index() <= (#[trigger] out@[j]).from.index(),
            out@.no_duplicates(),
            out@ == board_seq(v, turn, row as nat),
        decreases 8 - row,
    {
        let mut col: u8 = 0;
        assert(out@ =~= board_seq(v, turn, row as nat) + row_seq(v, turn, row as int, 0));
        while col < 8
            invariant
                v == board@,
                v.wf(),
                row < 8,
                col <= 8,
                forall|m: Move| #[trigger] out@.contains(m) <==> legal(v, turn, m) && m.from.index() < row as int * 8 + col as int,
                forall|k: int| 0 <= k < out@.len() ==> (#[trigger] out@[k]).from.index() < row as int * 8 + col as int,
                forall|i: int, j: int| 0 <= i < j < out@.len() ==> (#[trigger] out@[i]).from.index() <= (#[trigger] out@[j]).from.index(),
                out@.no_duplicates(),
                out@ == board_seq(v, turn, row as nat) + row_seq(v, turn, row as int, col as nat),
            decreases 8 - col,
        {
            let pos = Square { row, column: col };
            let ghost idx = row as int * 8 + col as int;
            match board.piece_at(row, col) {
                Some(p) => {
                    if p.color == turn {
                        let mut moves = safe_moves(board, p, pos);
                        let ghost prev = out@;
                        let ghost added = moves@;
                        out.append(&mut moves);
                        assert(out@ == prev + added);
                        assert forall|m: Move| #[trigger] out@.contains(m) <==> legal(v, turn, m) && m.from.index() < idx + 1 by {
                            lemma_contains_concat(prev, added, m);
                            if added.contains(m) {
                                lemma_pseudo_legal_squares(v, p, pos, m);
                            }
                            if legal(v, turn, m) && m.from.index() == idx {
                                assert(m.from == pos);
                            }
                        }
                        assert forall|k: int| 0 <= k < out@.len() implies (#[trigger] out@[k]).from.index() < idx + 1 by {
                            if k >= prev.len() {
                                assert(added[k - prev.len()] == out@[k]);
                            }
                        }
                        assert forall|i: int, j: int| 0 <= i < j < out@.len() implies (#[trigger] out@[i]).from.index() <= (#[trigger] out@[j]).from.index() by {
                            if j >= prev.len() {
                                assert(added[j - prev.len()] == out@[j]);
                            }
                            if i >= prev.len() {
                                assert(added[i - prev.len()] == out@[i]);
                            }
                        }
                        assert forall|i: int, j: int| 0 <= i < j < out@.len() implies out@[i] != out@[j] by {
                            if j >= prev.len() {
                                assert(added[j - prev.len()] == out@[j]);
                                if i >= prev.len() {
                                    assert(added[i - prev.len()] == out@[i]);
                                } else {
                                    assert(prev[i] == out@[i]);
                                }
                            } else {
                                assert(prev[i] == out@[i]);
                                assert(prev[j] == out@[j]);
                            }
                        }
                    } else {
                        assert forall|m: Move| #[trigger] out@.contains(m) <==> legal(v, turn, m) && m.from.index() < idx + 1 by {
                            if legal(v, turn, m) && m.from.index() == idx {
                                assert(m.from == pos);
                            }
                        }
                    }
                },
                None => {
                    assert forall|m: Move| #[trigger] out@.contains(m) <==> legal(v, turn, m) && m.from.index() < idx + 1 by {
                        if legal(v, turn, m) && m.from.index() == idx {
                            assert(m.from == pos);
                        }
                    }
                },
            }
            proof {
                assert(row_seq(v, turn, row as int, (col + 1) as nat) == row_seq(v, turn, row as int, col as nat) + square_seq(v, turn, row as int, col as int));
                assert(pos == sq(row as int, col as int));
                assert(out@ =~= board_seq(v, turn, row as nat) + row_seq(v, turn, row as int, (col + 1) as nat));
            }
            col = col + 1;
        }
        assert(board_seq(v, turn, (row + 1) as nat) == board_seq(v, turn, row as nat) + row_seq(v, turn, row as int, 8));
        row = row + 1;
    }
    out
}

/// How a position stands for the side to move.
#[derive(Clone, Copy, Debug, PartialEq, Eq, Structural)]
pub enum Outcome {
    /// The side to move has a legal move.
    InPlay,
    /// No legal move, and the king is attacked.
    Checkmate,
    /// No legal move, and the king is not attacked.
    Stalemate,
}

pub open spec fn has_legal_move(v: BoardView, color: Color) -> bool {
    exists|m: Move| #[trigger] legal(v, color, m)
}

/// Whether side `turn` can move, is checkmated, or is stalemated.
pub fn game_outcome(board: &BoardState, turn: Color) -> (r: Outcome)
    requires
        board@.wf(),
    ensures
        r == Outcome::InPlay <==> has_legal_move(board@, turn),
        r == Outcome::Checkmate <==> !has_legal_move(board@, turn) && in_check(board@, turn),
        r == Outcome::Stalemate <==> !has_legal_move(board@, turn) && !in_check(board@, turn),
{
    let moves = get_legal_moves_for_all_pieces(board, turn);
    proof {
        if moves@.len() > 0 {
            assert(moves@.contains(moves@[0]));
            assert(legal(board@, turn, moves@[0]));
        }
        if has_legal_move(board@, turn) {
            let m = choose|m: Move| legal(board@, turn, m);
            assert(moves@.contains(m));
        }
    }
    outcome_of(&moves, is_king_in_check(board, turn))
}

/// Reads the outcome off a list of legal moves and the answer to whether the king is
/// attacked: an empty list means checkmate when it is, stalemate when it is not.
pub fn outcome_of(moves: &Vec<Move>, king_attacked: bool) -> (r: Outcome)
    ensures
        moves@.len() > 0 ==> r == Outcome::InPlay,
        moves@.len() == 0 && king_attacked ==> r == Outcome::Checkmate,
        moves@.len() == 0 && !king_attacked ==> r == Outcome::Stalemate,
{
    if moves.len() > 0 {
        Outcome::InPlay
    } else if king_attacked {
        Outcome::Checkmate
    } else {
        Outcome::Stalemate
    }
}

/// The first move of the list, if there is one.
pub fn select_move(moves: Vec<Move>) -> (r: Option<Move>)
    ensures
        moves@.len() == 0 ==> r is None,
        moves@.len() > 0 ==> r == Some(moves@[0]),
{
    if moves.len() == 0 {
        None
    } else {
        Some(moves[0])
    }
}

/// After a legal move the mover's own king is never attacked.
pub proof fn lemma_legal_move_leaves_king_safe(v: BoardView, color: Color, m: Move)
    requires
        legal(v, color, m),
    ensures
        !in_check(v.apply(m), color),
{
}

/// A pseudo-legal move of a piece of `color` after which its king is not attacked is legal:
/// the filter excludes no safe move.
pub proof fn lemma_safe_move_is_legal(v: BoardView, color: Color, m: Move)
    requires
        m.from.valid(),
        v.at(m.from.row as int, m.from.column as int) matches Some(p) && p.color == color
            && pseudo_legal(v, p, m.from, m),
        !in_check(v.apply(m), color),
    ensures
        legal(v, color, m),
{
}

} // verus!
