use vstd::prelude::*;
use crate::types::{sq, Color, Move, Piece, PieceKind, Special, Square};
use crate::types::{on_board, opponent};
use crate::board::{home_row, last_row, pawn_dir, pawn_start_row, BoardState, BoardView};
use crate::rules::{
    bishop_move, castle_kingside, castle_queenside, is_square_attacked, king_step, knight_move, pawn_capture,
    pawn_double_push, pawn_en_passant, pawn_move, pawn_push, pawn_to, pseudo_legal, ray_move, reach, ray_reach,
    rook_move, step_move, open_target, plain_move,
};

verus! {

/// `s` with `m` appended, unless `s` already holds it.
pub open spec fn add_move(s: Seq<Move>, m: Move) -> Seq<Move> {
    if s.contains(m) { s } else { s.push(m) }
}

/// `s` after the step of `p` from `from` by `(dr, dc)`.
pub open spec fn step_seq(v: BoardView, p: Piece, from: Square, dr: int, dc: int, s: Seq<Move>) -> Seq<Move> {
    let r = from.row + dr;
    let c = from.column + dc;
    if open_target(v, p.color, r, c) { add_move(s, plain_move(v, p, from, sq(r, c))) } else { s }
}

/// `s` after walking on from `(r, c)` along `(dr, dc)` for at most `n` squares: each empty
/// square is added, and the first occupied one too when it does not hold a piece of `p`'s
/// color.
pub open spec fn ray_seq(v: BoardView, p: Piece, from: Square, dr: int, dc: int, r: int, c: int, n: nat, s: Seq<Move>) -> Seq<Move>
    decreases n,
{
    if n == 0 {
        s
    } else {
        let nr = r + dr;
        let nc = c + dc;
        if !on_board(nr, nc) {
            s
        } else if v.empty(nr, nc) {
            ray_seq(v, p, from, dr, dc, nr, nc, (n - 1) as nat, add_move(s, plain_move(v, p, from, sq(nr, nc))))
        } else if !v.holds(nr, nc, p.color) {
            add_move(s, plain_move(v, p, from, sq(nr, nc)))
        } else {
            s
        }
    }
}

pub open spec fn full_ray_seq(v: BoardView, p: Piece, from: Square, dr: int, dc: int, s: Seq<Move>) -> Seq<Move> {
    ray_seq(v, p, from, dr, dc, from.row as int, from.column as int, 8, s)
}

pub open spec fn knight_seq(v: BoardView, p: Piece, from: Square, s: Seq<Move>) -> Seq<Move> {
    step_seq(v, p, from, -2, -1, step_seq(v, p, from, -2, 1, step_seq(v, p, from, 2, -1, step_seq(v, p, from, 2, 1,
        step_seq(v, p, from, -1, -2, step_seq(v, p, from, -1, 2, step_seq(v, p, from, 1, -2, step_seq(v, p, from, 1, 2, s))))))))
}

pub open spec fn king_step_seq(v: BoardView, p: Piece, from: Square, s: Seq<Move>) -> Seq<Move> {
    step_seq(v, p, from, -1, -1, step_seq(v, p, from, -1, 0, step_seq(v, p, from, -1, 1, step_seq(v, p, from, 0, -1,
        step_seq(v, p, from, 0, 1, step_seq(v, p, from, 1, -1, step_seq(v, p, from, 1, 0, step_seq(v, p, from, 1, 1, s))))))))
}

pub open spec fn bishop_seq(v: BoardView, p: Piece, from: Square, s: Seq<Move>) -> Seq<Move> {
    full_ray_seq(v, p, from, -1, -1, full_ray_seq(v, p, from, -1, 1, full_ray_seq(v, p, from, 1, -1,
        full_ray_seq(v, p, from, 1, 1, s))))
}

pub open spec fn rook_seq(v: BoardView, p: Piece, from: Square, s: Seq<Move>) -> Seq<Move> {
    full_ray_seq(v, p, from, 0, -1, full_ray_seq(v, p, from, 0, 1, full_ray_seq(v, p, from, -1, 0,
        full_ray_seq(v, p, from, 1, 0, s))))
}

pub open spec fn pawn_move_to(from: Square, to: Square, capture: bool, promotion: Option<PieceKind>) -> Move {
    Move { kind: PieceKind::Pawn, from, to, capture, promotion, special: None }
}

/// `s` after the pawn moves from `from` to `to`: four promotions (knight, bishop, rook, queen)
/// on the last row, else the plain move.
pub open spec fn pawn_to_seq(color: Color, from: Square, to: Square, capture: bool, s: Seq<Move>) -> Seq<Move> {
    if to.row == last_row(color) {
        add_move(add_move(add_move(add_move(s, pawn_move_to(from, to, capture, Some(PieceKind::Knight))),
            pawn_move_to(from, to, capture, Some(PieceKind::Bishop))), pawn_move_to(from, to, capture, Some(PieceKind::Rook))),
            pawn_move_to(from, to, capture, Some(PieceKind::Queen)))
    } else {
        add_move(s, pawn_move_to(from, to, capture, None))
    }
}

pub open spec fn pawn_diagonal_seq(v: BoardView, color: Color, from: Square, dc: int, s: Seq<Move>) -> Seq<Move> {
    let r = from.row + pawn_dir(color);
    let c = from.column + dc;
    if !on_board(r, c) {
        s
    } else if !v.empty(r, c) {
        if v.holds(r, c, color) { s } else { pawn_to_seq(color, from, sq(r, c), true, s) }
    } else if v.en_passant == Some(sq(r, c)) {
        add_move(s, Move { kind: PieceKind::Pawn, from, to: sq(r, c), capture: true, promotion: None, special: Some(Special::EnPassant) })
    } else {
        s
    }
}

pub open spec fn pawn_seq(v: BoardView, color: Color, from: Square, s: Seq<Move>) -> Seq<Move> {
    let r1 = from.row + pawn_dir(color);
    let r2 = r1 + pawn_dir(color);
    let c = from.column as int;
    let pushed = if on_board(r1, c) && v.empty(r1, c) {
        let one = pawn_to_seq(color, from, sq(r1, c), false, s);
        if from.row == pawn_start_row(color) && v.empty(r2, c) {
            add_move(one, pawn_move_to(from, sq(r2, c), false, None))
        } else {
            one
        }
    } else {
        s
    };
    pawn_diagonal_seq(v, color, from, 1, pawn_diagonal_seq(v, color, from, -1, pushed))
}

pub open spec fn castle_seq(v: BoardView, color: Color, from: Square, s: Seq<Move>) -> Seq<Move> {
    let h = home_row(color);
    if from == sq(h, 4) {
        let k = Move { kind: PieceKind::King, from, to: sq(h, 6), capture: false, promotion: None, special: Some(Special::CastleKingside) };
        let q = Move { kind: PieceKind::King, from, to: sq(h, 2), capture: false, promotion: None, special: Some(Special::CastleQueenside) };
        let s1 = if castle_kingside(v, color, from, k) { add_move(s, k) } else { s };
        if castle_queenside(v, color, from, q) { add_move(s1, q) } else { s1 }
    } else {
        s
    }
}

/// The pseudo-legal moves of `p` on `from` in the order its rule produces them.
pub open spec fn rule_seq(v: BoardView, p: Piece, from: Square) -> Seq<Move> {
    let e = Seq::<Move>::empty();
    match p.kind {
        PieceKind::Pawn => pawn_seq(v, p.color, from, e),
        PieceKind::Knight => knight_seq(v, p, from, e),
        PieceKind::Bishop => bishop_seq(v, p, from, e),
        PieceKind::Rook => rook_seq(v, p, from, e),
        PieceKind::Queen => rook_seq(v, p, from, bishop_seq(v, p, from, e)),
        PieceKind::King => castle_seq(v, p.color, from, king_step_seq(v, p, from, e)),
    }
}

/// Appends the step of `p` from `from` by `(dr, dc)` where it lands on the board and not on
/// a piece of its own color.
fn push_step(b: &BoardState, p: Piece, from: Square, dr: i8, dc: i8, out: &mut Vec<Move>)
    requires
        b@.wf(),
        from.valid(),
        -2 <= dr <= 2,
        -2 <= dc <= 2,
        old(out)@.no_duplicates(),
    ensures
        final(out)@ == step_seq(b@, p, from, dr as int, dc as int, old(out)@),
        final(out)@.no_duplicates(),
        forall|m: Move| #[trigger] final(out)@.contains(m) <==> old(out)@.contains(m) || step_move(b@, p, from, dr as int, dc as int, m),
{
    let r: i16 = from.row as i16 + dr as i16;
    let c: i16 = from.column as i16 + dc as i16;
    if 0 <= r && r < 8 && 0 <= c && c < 8 {
        let target = b.piece_at(r as u8, c as u8);
        let own = match target {
            Some(q) => q.color == p.color,
            None => false,
        };
        if !own {
            let m = Move {
                kind: p.kind,
                from,
                to: Square { row: r as u8, column: c as u8 },
                capture: target.is_some(),
                promotion: None,
                special: None,
            };
            push_one(out, m);
        }
    }
}

/// A walk along a ray never comes back: it ends strictly further along each moving axis.
proof fn lemma_reach_moves_away(v: BoardView, r: int, c: int, dr: int, dc: int, tr: int, tc: int, n: nat)
    requires
        reach(v, r, c, dr, dc, tr, tc, n),
    ensures
        dr > 0 ==> tr > r,
        dr < 0 ==> tr < r,
        dc > 0 ==> tc > c,
        dc < 0 ==> tc < c,
    decreases n,
{
    if !(r + dr == tr && c + dc == tc) {
        lemma_reach_moves_away(v, r + dr, c + dc, dr, dc, tr, tc, (n - 1) as nat);
    }
}

/// Appends the moves of `p` from `from` along the ray `(dr, dc)`: every empty square up to
/// the first occupied one, and that one too when it holds an opponent's piece.
fn push_ray(b: &BoardState, p: Piece, from: Square, dr: i8, dc: i8, out: &mut Vec<Move>)
    requires
        b@.wf(),
        from.valid(),
        -1 <= dr <= 1,
        -1 <= dc <= 1,
        !(dr == 0 && dc == 0),
        old(out)@.no_duplicates(),
    ensures
        final(out)@ == full_ray_seq(b@, p, from, dr as int, dc as int, old(out)@),
        final(out)@.no_duplicates(),
        forall|m: Move| #[trigger] final(out)@.contains(m) <==> old(out)@.contains(m) || ray_move(b@, p, from, dr as int, dc as int, m),
{
    let ghost start = out@;
    let ghost v = b@;
    let mut cr: i16 = from.row as i16;
    let mut cc: i16 = from.column as i16;
    let mut fuel: u8 = 8;
    while fuel > 0
        invariant
            b@.wf(),
            v == b@,
            start == old(out)@,
            out@.no_duplicates(),
            full_ray_seq(v, p, from, dr as int, dc as int, start)
                == ray_seq(v, p, from, dr as int, dc as int, cr as int, cc as int, fuel as nat, out@),
            !(dr == 0 && dc == 0),
            0 <= cr < 8,
            0 <= cc < 8,
            fuel <= 8,
            -1 <= dr <= 1,
            -1 <= dc <= 1,
            forall|m: Move| #[trigger] out@.contains(m) <==> start.contains(m) || (ray_move(v, p, from, dr as int, dc as int, m)
                && !reach(v, cr as int, cc as int, dr as int, dc as int, m.to.row as int, m.to.column as int, fuel as nat)),
            forall|tr: int, tc: int| #[trigger] reach(v, cr as int, cc as int, dr as int, dc as int, tr, tc, fuel as nat)
                ==> ray_reach(v, from, dr as int, dc as int, tr, tc),
        decreases fuel,
    {
        let nr = cr + dr as i16;
        let nc = cc + dc as i16;
        if nr < 0 || nr >= 8 || nc < 0 || nc >= 8 {
            assert forall|m: Move| #[trigger] out@.contains(m) <==> start.contains(m) || ray_move(v, p, from, dr as int, dc as int, m) by {
                assert(!reach(v, cr as int, cc as int, dr as int, dc as int, m.to.row as int, m.to.column as int, fuel as nat));
            }
            return;
        }
        let target = b.piece_at(nr as u8, nc as u8);
        assert forall|tr: int, tc: int| #[trigger] reach(v, cr as int, cc as int, dr as int, dc as int, tr, tc, fuel as nat)
            == ((nr == tr && nc == tc) || (v.empty(nr as int, nc as int) && reach(v, nr as int, nc as int, dr as int, dc as int, tr, tc, (fuel - 1) as nat))) by {
        }
        let to = Square { row: nr as u8, column: nc as u8 };
        let ghost pc = cr;
        let ghost pcc = cc;
        let ghost pf = fuel;
        assert(reach(v, cr as int, cc as int, dr as int, dc as int, nr as int, nc as int, fuel as nat));
        match target {
            None => {
                let m = Move { kind: p.kind, from, to, capture: false, promotion: None, special: None };
                push_one(out, m);
                cr = nr;
                cc = nc;
                fuel = fuel - 1;
                assert forall|tr: int, tc: int| #[trigger] reach(v, cr as int, cc as int, dr as int, dc as int, tr, tc, fuel as nat)
                    implies ray_reach(v, from, dr as int, dc as int, tr, tc) by {
                    assert(reach(v, pc as int, pcc as int, dr as int, dc as int, tr, tc, pf as nat));
                }
                assert forall|x: Move| #[trigger] out@.contains(x) <==> start.contains(x) || (ray_move(v, p, from, dr as int, dc as int, x)
                    && !reach(v, cr as int, cc as int, dr as int, dc as int, x.to.row as int, x.to.column as int, fuel as nat)) by {
                    let ghost _unfolded = reach(v, pc as int, pcc as int, dr as int, dc as int, x.to.row as int, x.to.column as int, pf as nat);
                    if x.to.row == nr && x.to.column == nc {
                        if reach(v, cr as int, cc as int, dr as int, dc as int, x.to.row as int, x.to.column as int, fuel as nat) {
                            lemma_reach_moves_away(v, cr as int, cc as int, dr as int, dc as int, x.to.row as int, x.to.column as int, fuel as nat);
                        }
                    }
                }
            },
            Some(q) => {
                if q.color != p.color {
                    let m = Move { kind: p.kind, from, to, capture: true, promotion: None, special: None };
                    push_one(out, m);
                    assert forall|x: Move| #[trigger] out@.contains(x) <==> start.contains(x) || ray_move(v, p, from, dr as int, dc as int, x) by {
                        let ghost _unfolded = reach(v, pc as int, pcc as int, dr as int, dc as int, x.to.row as int, x.to.column as int, pf as nat);
                    }
                } else {
                    assert forall|x: Move| #[trigger] out@.contains(x) <==> start.contains(x) || ray_move(v, p, from, dr as int, dc as int, x) by {
                        let ghost _unfolded = reach(v, pc as int, pcc as int, dr as int, dc as int, x.to.row as int, x.to.column as int, pf as nat);
                    }
                }
                return;
            },
        }
    }
}

/// Appends one move unless the list already holds it.
fn push_one(out: &mut Vec<Move>, m: Move)
    requires
        old(out)@.no_duplicates(),
    ensures
        final(out)@ == add_move(old(out)@, m),
        forall|x: Move| #[trigger] final(out)@.contains(x) <==> old(out)@.contains(x) || x == m,
        final(out)@.no_duplicates(),
{
    let ghost prev = out@;
    let mut i: usize = 0;
    while i < out.len()
        invariant
            out@ == prev,
            prev.no_duplicates(),
            i <= out@.len(),
            forall|k: int| 0 <= k < i ==> out@[k] != m,
        decreases out@.len() - i,
    {
        if out[i] == m {
            assert(out@[i as int] == m);
            return;
        }
        i = i + 1;
    }
    out.push(m);
    assert forall|a: int, c: int| 0 <= a < c < out@.len() implies out@[a] != out@[c] by {
        if c == prev.len() {
            assert(out@[a] == prev[a]);
        }
    }
    assert forall|x: Move| #[trigger] out@.contains(x) <==> prev.contains(x) || x == m by {
        if out@.contains(x) && !prev.contains(x) {
            let k = choose|k: int| 0 <= k < out@.len() && out@[k] == x;
            assert(k == prev.len());
        }
        if x == m {
            assert(out@[prev.len() as int] == x);
        }
        if prev.contains(x) {
            let k = choose|k: int| 0 <= k < prev.len() && prev[k] == x;
            assert(out@[k] == x);
        }
    }
}

fn knight_moves(b: &BoardState, p: Piece, from: Square, out: &mut Vec<Move>)
    requires
        b@.wf(),
        from.valid(),
        old(out)@.no_duplicates(),
    ensures
        final(out)@ == knight_seq(b@, p, from, old(out)@),
        final(out)@.no_duplicates(),
        forall|m: Move| #[trigger] final(out)@.contains(m) <==> old(out)@.contains(m) || knight_move(b@, p, from, m),
{
    let ghost start = out@;
    push_step(b, p, from, 1, 2, out);
    push_step(b, p, from, 1, -2, out);
    push_step(b, p, from, -1, 2, out);
    push_step(b, p, from, -1, -2, out);
    push_step(b, p, from, 2, 1, out);
    push_step(b, p, from, 2, -1, out);
    push_step(b, p, from, -2, 1, out);
    push_step(b, p, from, -2, -1, out);
    assert forall|m: Move| #[trigger] out@.contains(m) <==> start.contains(m) || knight_move(b@, p, from, m) by {
        if knight_move(b@, p, from, m) {
            assert(m.to == sq(m.to.row as int, m.to.column as int));
        }
    }
}

fn king_steps(b: &BoardState, p: Piece, from: Square, out: &mut Vec<Move>)
    requires
        b@.wf(),
        from.valid(),
        old(out)@.no_duplicates(),
    ensures
        final(out)@ == king_step_seq(b@, p, from, old(out)@),
        final(out)@.no_duplicates(),
        forall|m: Move| #[trigger] final(out)@.contains(m) <==> old(out)@.contains(m) || king_step(b@, p, from, m),
{
    let ghost start = out@;
    push_step(b, p, from, 1, 1, out);
    push_step(b, p, from, 1, 0, out);
    push_step(b, p, from, 1, -1, out);
    push_step(b, p, from, 0, 1, out);
    push_step(b, p, from, 0, -1, out);
    push_step(b, p, from, -1, 1, out);
    push_step(b, p, from, -1, 0, out);
    push_step(b, p, from, -1, -1, out);
    assert forall|m: Move| #[trigger] out@.contains(m) <==> start.contains(m) || king_step(b@, p, from, m) by {
        if king_step(b@, p, from, m) {
            assert(m.to == sq(m.to.row as int, m.to.column as int));
        }
    }
}

fn bishop_moves(b: &BoardState, p: Piece, from: Square, out: &mut Vec<Move>)
    requires
        b@.wf(),
        from.valid(),
        old(out)@.no_duplicates(),
    ensures
        final(out)@ == bishop_seq(b@, p, from, old(out)@),
        final(out)@.no_duplicates(),
        forall|m: Move| #[trigger] final(out)@.contains(m) <==> old(out)@.contains(m) || bishop_move(b@, p, from, m),
{
    push_ray(b, p, from, 1, 1, out);
    push_ray(b, p, from, 1, -1, out);
    push_ray(b, p, from, -1, 1, out);
    push_ray(b, p, from, -1, -1, out);
}

fn rook_moves(b: &BoardState, p: Piece, from: Square, out: &mut Vec<Move>)
    requires
        b@.wf(),
        from.valid(),
        old(out)@.no_duplicates(),
    ensures
        final(out)@ == rook_seq(b@, p, from, old(out)@),
        final(out)@.no_duplicates(),
        forall|m: Move| #[trigger] final(out)@.contains(m) <==> old(out)@.contains(m) || rook_move(b@, p, from, m),
{
    push_ray(b, p, from, 1, 0, out);
    push_ray(b, p, from, -1, 0, out);
    push_ray(b, p, from, 0, 1, out);
    push_ray(b, p, from, 0, -1, out);
}

/// Appends the pawn moves of `color` from `from` to `to`: the four promotions on the last
/// row, else the one plain move.
fn push_pawn_to(color: Color, from: Square, to: Square, capture: bool, out: &mut Vec<Move>)
    requires
        to.valid(),
        old(out)@.no_duplicates(),
    ensures
        final(out)@ == pawn_to_seq(color, from, to, capture, old(out)@),
        final(out)@.no_duplicates(),
        forall|m: Move| #[trigger] final(out)@.contains(m) <==> old(out)@.contains(m) || pawn_to(color, from, to, capture, m),
{
    let last: u8 = if color == Color::White { 7 } else { 0 };
    if to.row == last {
        push_one(out, Move { kind: PieceKind::Pawn, from, to, capture, promotion: Some(PieceKind::Knight), special: None });
        push_one(out, Move { kind: PieceKind::Pawn, from, to, capture, promotion: Some(PieceKind::Bishop), special: None });
        push_one(out, Move { kind: PieceKind::Pawn, from, to, capture, promotion: Some(PieceKind::Rook), special: None });
        push_one(out, Move { kind: PieceKind::Pawn, from, to, capture, promotion: Some(PieceKind::Queen), special: None });
    } else {
        push_one(out, Move { kind: PieceKind::Pawn, from, to, capture, promotion: None, special: None });
    }
}

/// Appends the diagonal captures of a pawn of `color` from `from` toward column offset `dc`.
fn pawn_diagonal(b: &BoardState, color: Color, from: Square, dc: i8, out: &mut Vec<Move>)
    requires
        b@.wf(),
        from.valid(),
        dc == 1 || dc == -1,
        old(out)@.no_duplicates(),
    ensures
        final(out)@ == pawn_diagonal_seq(b@, color, from, dc as int, old(out)@),
        final(out)@.no_duplicates(),
        forall|m: Move| #[trigger] final(out)@.contains(m) <==> old(out)@.contains(m)
            || pawn_capture(b@, color, from, dc as int, m) || pawn_en_passant(b@, color, from, dc as int, m),
{
    let dir: i16 = if color == Color::White { 1 } else { -1 };
    let r: i16 = from.row as i16 + dir;
    let c: i16 = from.column as i16 + dc as i16;
    if 0 <= r && r < 8 && 0 <= c && c < 8 {
        let to = Square { row: r as u8, column: c as u8 };
        match b.piece_at(r as u8, c as u8) {
            Some(q) => {
                if q.color != color {
                    push_pawn_to(color, from, to, true, out);
                }
            },
            None => {
                if b.en_passant == Some(to) {
                    push_one(out, Move { kind: PieceKind::Pawn, from, to, capture: true, promotion: None, special: Some(Special::EnPassant) });
                }
            },
        }
    }
}

fn pawn_moves(b: &BoardState, color: Color, from: Square, out: &mut Vec<Move>)
    requires
        b@.wf(),
        from.valid(),
        old(out)@.no_duplicates(),
    ensures
        final(out)@ == pawn_seq(b@, color, from, old(out)@),
        final(out)@.no_duplicates(),
        forall|m: Move| #[trigger] final(out)@.contains(m) <==> old(out)@.contains(m) || pawn_move(b@, color, from, m),
{
    let ghost start = out@;
    let dir: i16 = if color == Color::White { 1 } else { -1 };
    let start_row: u8 = if color == Color::White { 1 } else { 6 };
    let r: i16 = from.row as i16 + dir;
    let c = from.column;
    if 0 <= r && r < 8 && b.piece_at(r as u8, c).is_none() {
        push_pawn_to(color, from, Square { row: r as u8, column: c }, false, out);
        if from.row == start_row {
            let r2: i16 = r + dir;
            if b.piece_at(r2 as u8, c).is_none() {
                push_one(out, Move {
                    kind: PieceKind::Pawn,
                    from,
                    to: Square { row: r2 as u8, column: c },
                    capture: false,
                    promotion: None,
                    special: None,
                });
            }
        }
    }
    let ghost mid = out@;
    assert forall|m: Move| #[trigger] mid.contains(m) <==> start.contains(m) || pawn_push(b@, color, from, m)
        || pawn_double_push(b@, color, from, m) by {}
    pawn_diagonal(b, color, from, -1, out);
    pawn_diagonal(b, color, from, 1, out);
}

/// Appends the castling moves of a king of `color` standing on `from`.
fn castle_moves(b: &BoardState, color: Color, from: Square, out: &mut Vec<Move>)
    requires
        b@.wf(),
        from.valid(),
        old(out)@.no_duplicates(),
    ensures
        final(out)@ == castle_seq(b@, color, from, old(out)@),
        final(out)@.no_duplicates(),
        forall|m: Move| #[trigger] final(out)@.contains(m) <==> old(out)@.contains(m)
            || castle_kingside(b@, color, from, m) || castle_queenside(b@, color, from, m),
{
    let h: u8 = if color == Color::White { 0 } else { 7 };
    let opp = crate::types::other(color);
    let rook = Some(Piece { color, kind: PieceKind::Rook });
    let kingside = if color == Color::White { b.white_kingside } else { b.black_kingside };
    let queenside = if color == Color::White { b.white_queenside } else { b.black_queenside };
    let hi = h as i8;
    if from.row == h && from.column == 4 {
        if kingside && b.piece_at(h, 7) == rook && b.piece_at(h, 5).is_none() && b.piece_at(h, 6).is_none()
            && !is_square_attacked(b, hi, 4, opp) && !is_square_attacked(b, hi, 5, opp)
            && !is_square_attacked(b, hi, 6, opp) {
            push_one(out, Move {
                kind: PieceKind::King,
                from,
                to: Square { row: h, column: 6 },
                capture: false,
                promotion: None,
                special: Some(Special::CastleKingside),
            });
        }
        if queenside && b.piece_at(h, 0) == rook && b.piece_at(h, 1).is_none() && b.piece_at(h, 2).is_none()
            && b.piece_at(h, 3).is_none() && !is_square_attacked(b, hi, 4, opp)
            && !is_square_attacked(b, hi, 3, opp) && !is_square_attacked(b, hi, 2, opp) {
            push_one(out, Move {
                kind: PieceKind::King,
                from,
                to: Square { row: h, column: 2 },
                capture: false,
                promotion: None,
                special: Some(Special::CastleQueenside),
            });
        }
    }
}

/// The pseudo-legal moves of piece `p` standing on `from`: those its movement rule allows,
/// whether or not they leave its own king attacked.
pub fn pseudo_legal_moves(b: &BoardState, p: Piece, from: Square) -> (r: Vec<Move>)
    requires
        b@.wf(),
        from.valid(),
    ensures
        r@ == rule_seq(b@, p, from),
        forall|m: Move| #[trigger] r@.contains(m) <==> pseudo_legal(b@, p, from, m),
        r@.no_duplicates(),
        forall|k: int| 0 <= k < r@.len() ==> (#[trigger] r@[k]).from == from,
{
    let mut out: Vec<Move> = Vec::new();
    match p.kind {
        PieceKind::Pawn => pawn_moves(b, p.color, from, &mut out),
        PieceKind::Knight => knight_moves(b, p, from, &mut out),
        PieceKind::Bishop => bishop_moves(b, p, from, &mut out),
        PieceKind::Rook => rook_moves(b, p, from, &mut out),
        PieceKind::Queen => {
            bishop_moves(b, p, from, &mut out);
            rook_moves(b, p, from, &mut out);
        },
        PieceKind::King => {
            king_steps(b, p, from, &mut out);
            castle_moves(b, p.color, from, &mut out);
        },
    }
    assert forall|k: int| 0 <= k < out@.len() implies (#[trigger] out@[k]).from == from by {
        assert(out@.contains(out@[k]));
        crate::legality::lemma_pseudo_legal_squares(b@, p, from, out@[k]);
    }
    out
}

} // verus!
