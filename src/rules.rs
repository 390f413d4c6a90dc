use vstd::prelude::*;
use crate::types::{on_board, opponent, sq, Color, Move, Piece, PieceKind, Special, Square};
use crate::board::{BoardState, BoardView, home_row, last_row, pawn_dir, pawn_start_row};

verus! {

/// Walking from `(r, c)` in steps of `(dr, dc)` over empty squares reaches `(tr, tc)` within
/// `n` steps; the square reached itself may hold a piece.
pub open spec fn reach(v: BoardView, r: int, c: int, dr: int, dc: int, tr: int, tc: int, n: nat) -> bool
    decreases n,
{
    if n == 0 {
        false
    } else {
        let nr = r + dr;
        let nc = c + dc;
        on_board(nr, nc) && ((nr == tr && nc == tc) || (v.empty(nr, nc) && reach(v, nr, nc, dr, dc, tr, tc, (n - 1) as nat)))
    }
}

/// Along a ray from `from`, with nothing between.
pub open spec fn ray_reach(v: BoardView, from: Square, dr: int, dc: int, tr: int, tc: int) -> bool {
    reach(v, from.row as int, from.column as int, dr, dc, tr, tc, 8)
}

pub open spec fn knight_delta(dr: int, dc: int) -> bool {
    ((dr == 1 || dr == -1) && (dc == 2 || dc == -2)) || ((dr == 2 || dr == -2) && (dc == 1 || dc == -1))
}

pub open spec fn king_delta(dr: int, dc: int) -> bool {
    -1 <= dr <= 1 && -1 <= dc <= 1 && !(dr == 0 && dc == 0)
}

pub open spec fn diagonal_reach(v: BoardView, from: Square, tr: int, tc: int) -> bool {
    ray_reach(v, from, 1, 1, tr, tc) || ray_reach(v, from, 1, -1, tr, tc)
        || ray_reach(v, from, -1, 1, tr, tc) || ray_reach(v, from, -1, -1, tr, tc)
}

pub open spec fn straight_reach(v: BoardView, from: Square, tr: int, tc: int) -> bool {
    ray_reach(v, from, 1, 0, tr, tc) || ray_reach(v, from, -1, 0, tr, tc)
        || ray_reach(v, from, 0, 1, tr, tc) || ray_reach(v, from, 0, -1, tr, tc)
}

/// Piece `p` standing on `from` attacks square `(tr, tc)`: pawns attack the two squares
/// diagonally ahead, knights and kings their step squares, sliders along open rays.
pub open spec fn attacks_from(v: BoardView, p: Piece, from: Square, tr: int, tc: int) -> bool {
    let dr = tr - from.row as int;
    let dc = tc - from.column as int;
    match p.kind {
        PieceKind::Pawn => dr == pawn_dir(p.color) && (dc == 1 || dc == -1),
        PieceKind::Knight => knight_delta(dr, dc),
        PieceKind::King => king_delta(dr, dc),
        PieceKind::Bishop => diagonal_reach(v, from, tr, tc),
        PieceKind::Rook => straight_reach(v, from, tr, tc),
        PieceKind::Queen => diagonal_reach(v, from, tr, tc) || straight_reach(v, from, tr, tc),
    }
}

/// A piece of color `by` on `(r, c)` attacks `(tr, tc)`.
pub open spec fn attacker(v: BoardView, r: int, c: int, tr: int, tc: int, by: Color) -> bool {
    on_board(r, c) && (v.at(r, c) matches Some(p) && p.color == by && attacks_from(v, p, sq(r, c), tr, tc))
}

/// Square `(tr, tc)` is attacked by some piece of color `by`.
pub open spec fn attacked(v: BoardView, tr: int, tc: int, by: Color) -> bool {
    exists|r: int, c: int| #[trigger] attacker(v, r, c, tr, tc, by)
}

/// The move of `p` from `from` to `to` that is not special: it captures what stands on `to`.
pub open spec fn plain_move(v: BoardView, p: Piece, from: Square, to: Square) -> Move {
    Move {
        kind: p.kind,
        from,
        to,
        capture: v.at(to.row as int, to.column as int) is Some,
        promotion: None,
        special: None,
    }
}

/// `(r, c)` is on the board and holds no piece of color `color`.
pub open spec fn open_target(v: BoardView, color: Color, r: int, c: int) -> bool {
    on_board(r, c) && !v.holds(r, c, color)
}

/// `m` is the step of `p` from `from` by `(dr, dc)`.
pub open spec fn step_move(v: BoardView, p: Piece, from: Square, dr: int, dc: int, m: Move) -> bool {
    let r = from.row + dr;
    let c = from.column + dc;
    open_target(v, p.color, r, c) && m == plain_move(v, p, from, sq(r, c))
}

/// `m` moves `p` from `from` along the ray `(dr, dc)` to an empty square or an opponent's.
pub open spec fn ray_move(v: BoardView, p: Piece, from: Square, dr: int, dc: int, m: Move) -> bool {
    &&& ray_reach(v, from, dr, dc, m.to.row as int, m.to.column as int)
    &&& open_target(v, p.color, m.to.row as int, m.to.column as int)
    &&& m == plain_move(v, p, from, m.to)
}

pub open spec fn knight_move(v: BoardView, p: Piece, from: Square, m: Move) -> bool {
    &&& knight_delta(m.to.row - from.row, m.to.column - from.column)
    &&& open_target(v, p.color, m.to.row as int, m.to.column as int)
    &&& m == plain_move(v, p, from, m.to)
}

pub open spec fn king_step(v: BoardView, p: Piece, from: Square, m: Move) -> bool {
    &&& king_delta(m.to.row - from.row, m.to.column - from.column)
    &&& open_target(v, p.color, m.to.row as int, m.to.column as int)
    &&& m == plain_move(v, p, from, m.to)
}

pub open spec fn bishop_move(v: BoardView, p: Piece, from: Square, m: Move) -> bool {
    ray_move(v, p, from, 1, 1, m) || ray_move(v, p, from, 1, -1, m)
        || ray_move(v, p, from, -1, 1, m) || ray_move(v, p, from, -1, -1, m)
}

pub open spec fn rook_move(v: BoardView, p: Piece, from: Square, m: Move) -> bool {
    ray_move(v, p, from, 1, 0, m) || ray_move(v, p, from, -1, 0, m)
        || ray_move(v, p, from, 0, 1, m) || ray_move(v, p, from, 0, -1, m)
}

pub open spec fn promotion_kind(k: PieceKind) -> bool {
    k == PieceKind::Knight || k == PieceKind::Bishop || k == PieceKind::Rook || k == PieceKind::Queen
}

/// A pawn of `color` arriving on row `row` promotes exactly when the row is its last one.
pub open spec fn promotion_ok(color: Color, row: int, promotion: Option<PieceKind>) -> bool {
    if row == last_row(color) {
        promotion matches Some(k) && promotion_kind(k)
    } else {
        promotion is None
    }
}

/// `m` is a pawn move of `color` from `from` to `to`, not special, with the promotion its
/// destination calls for.
pub open spec fn pawn_to(color: Color, from: Square, to: Square, capture: bool, m: Move) -> bool {
    &&& m.kind == PieceKind::Pawn
    &&& m.from == from
    &&& m.to == to
    &&& m.capture == capture
    &&& m.special is None
    &&& promotion_ok(color, to.row as int, m.promotion)
}

pub open spec fn pawn_push(v: BoardView, color: Color, from: Square, m: Move) -> bool {
    let r = from.row + pawn_dir(color);
    let c = from.column as int;
    on_board(r, c) && v.empty(r, c) && pawn_to(color, from, sq(r, c), false, m)
}

pub open spec fn pawn_double_push(v: BoardView, color: Color, from: Square, m: Move) -> bool {
    let r1 = from.row + pawn_dir(color);
    let r2 = r1 + pawn_dir(color);
    let c = from.column as int;
    &&& from.row == pawn_start_row(color)
    &&& v.empty(r1, c)
    &&& v.empty(r2, c)
    &&& m == Move { kind: PieceKind::Pawn, from, to: sq(r2, c), capture: false, promotion: None, special: None }
}

pub open spec fn pawn_capture(v: BoardView, color: Color, from: Square, dc: int, m: Move) -> bool {
    let r = from.row + pawn_dir(color);
    let c = from.column + dc;
    on_board(r, c) && v.holds(r, c, opponent(color)) && pawn_to(color, from, sq(r, c), true, m)
}

pub open spec fn pawn_en_passant(v: BoardView, color: Color, from: Square, dc: int, m: Move) -> bool {
    let r = from.row + pawn_dir(color);
    let c = from.column + dc;
    &&& on_board(r, c)
    &&& v.en_passant == Some(sq(r, c))
    &&& v.empty(r, c)
    &&& m == Move { kind: PieceKind::Pawn, from, to: sq(r, c), capture: true, promotion: None, special: Some(Special::EnPassant) }
}

pub open spec fn pawn_move(v: BoardView, color: Color, from: Square, m: Move) -> bool {
    ||| pawn_push(v, color, from, m)
    ||| pawn_double_push(v, color, from, m)
    ||| pawn_capture(v, color, from, -1, m)
    ||| pawn_capture(v, color, from, 1, m)
    ||| pawn_en_passant(v, color, from, -1, m)
    ||| pawn_en_passant(v, color, from, 1, m)
}

/// King-side castling of `color`: the right is held, the rook stands in its corner, the
/// squares between are empty, and none of the king's origin, transit and destination is
/// attacked.
pub open spec fn castle_kingside(v: BoardView, color: Color, from: Square, m: Move) -> bool {
    let h = home_row(color);
    let opp = opponent(color);
    &&& from == sq(h, 4)
    &&& v.kingside_right(color)
    &&& v.at(h, 7) == Some(Piece { color, kind: PieceKind::Rook })
    &&& v.empty(h, 5) && v.empty(h, 6)
    &&& !attacked(v, h, 4, opp) && !attacked(v, h, 5, opp) && !attacked(v, h, 6, opp)
    &&& m == Move { kind: PieceKind::King, from, to: sq(h, 6), capture: false, promotion: None, special: Some(Special::CastleKingside) }
}

/// Queen-side castling of `color`, under the same conditions on the other wing.
pub open spec fn castle_queenside(v: BoardView, color: Color, from: Square, m: Move) -> bool {
    let h = home_row(color);
    let opp = opponent(color);
    &&& from == sq(h, 4)
    &&& v.queenside_right(color)
    &&& v.at(h, 0) == Some(Piece { color, kind: PieceKind::Rook })
    &&& v.empty(h, 1) && v.empty(h, 2) && v.empty(h, 3)
    &&& !attacked(v, h, 4, opp) && !attacked(v, h, 3, opp) && !attacked(v, h, 2, opp)
    &&& m == Move { kind: PieceKind::King, from, to: sq(h, 2), capture: false, promotion: None, special: Some(Special::CastleQueenside) }
}

/// `m` is a pseudo-legal move of piece `p` standing on `from`: geometrically valid, whether
/// or not it leaves the own king attacked.
pub open spec fn pseudo_legal(v: BoardView, p: Piece, from: Square, m: Move) -> bool {
    match p.kind {
        PieceKind::Pawn => pawn_move(v, p.color, from, m),
        PieceKind::Knight => knight_move(v, p, from, m),
        PieceKind::Bishop => bishop_move(v, p, from, m),
        PieceKind::Rook => rook_move(v, p, from, m),
        PieceKind::Queen => bishop_move(v, p, from, m) || rook_move(v, p, from, m),
        PieceKind::King => king_step(v, p, from, m) || castle_kingside(v, p.color, from, m)
            || castle_queenside(v, p.color, from, m),
    }
}

/// A ray whose second square is occupied, with the first one empty, offers the first square,
/// and the second one only when it holds an opponent's piece: nothing beyond.
pub proof fn lemma_ray_stops_at_blocker(v: BoardView, p: Piece, from: Square, dr: int, dc: int, m: Move)
    requires
        v.wf(),
        from.valid(),
        -1 <= dr <= 1,
        -1 <= dc <= 1,
        !(dr == 0 && dc == 0),
        on_board(from.row + 2 * dr, from.column + 2 * dc),
        v.empty(from.row + dr, from.column + dc),
        !v.empty(from.row + 2 * dr, from.column + 2 * dc),
    ensures
        ray_move(v, p, from, dr, dc, m) <==> m == plain_move(v, p, from, sq(from.row + dr, from.column + dc))
            || (v.holds(from.row + 2 * dr, from.column + 2 * dc, opponent(p.color))
                && m == plain_move(v, p, from, sq(from.row + 2 * dr, from.column + 2 * dc))),
{
    let r1 = from.row + dr;
    let c1 = from.column + dc;
    let r2 = from.row + 2 * dr;
    let c2 = from.column + 2 * dc;
    assert(reach(v, from.row as int, from.column as int, dr, dc, m.to.row as int, m.to.column as int, 8)
        == ((r1 == m.to.row && c1 == m.to.column) || reach(v, r1, c1, dr, dc, m.to.row as int, m.to.column as int, 7)));
    assert(reach(v, r1, c1, dr, dc, m.to.row as int, m.to.column as int, 7) == (r2 == m.to.row && c2 == m.to.column));
    let t1 = sq(r1, c1);
    let t2 = sq(r2, c2);
    assert(t1.row as int == r1 && t1.column as int == c1);
    assert(t2.row as int == r2 && t2.column as int == c2);
    assert(reach(v, from.row as int, from.column as int, dr, dc, r1, c1, 8));
    assert(reach(v, r1, c1, dr, dc, r2, c2, 7));
}

/// King-side castling is never a candidate while the king's origin, transit or destination
/// square is attacked, however clear the path.
pub proof fn lemma_no_kingside_castle_through_attack(v: BoardView, color: Color, from: Square, m: Move)
    requires
        attacked(v, home_row(color), 4, opponent(color)) || attacked(v, home_row(color), 5, opponent(color))
            || attacked(v, home_row(color), 6, opponent(color)),
    ensures
        !castle_kingside(v, color, from, m),
{
}

/// Queen-side castling is never a candidate while the king's origin, transit or destination
/// square is attacked, however clear the path.
pub proof fn lemma_no_queenside_castle_through_attack(v: BoardView, color: Color, from: Square, m: Move)
    requires
        attacked(v, home_row(color), 4, opponent(color)) || attacked(v, home_row(color), 3, opponent(color))
            || attacked(v, home_row(color), 2, opponent(color)),
    ensures
        !castle_queenside(v, color, from, m),
{
}

/// Whether walking from `from` along `(dr, dc)` over empty squares reaches `(tr, tc)`.
fn reaches(b: &BoardState, from: Square, dr: i8, dc: i8, tr: i8, tc: i8) -> (r: bool)
    requires
        b@.wf(),
        from.valid(),
        -1 <= dr <= 1,
        -1 <= dc <= 1,
    ensures
        r == ray_reach(b@, from, dr as int, dc as int, tr as int, tc as int),
{
    let mut cr: i16 = from.row as i16;
    let mut cc: i16 = from.column as i16;
    let mut fuel: u8 = 8;
    while fuel > 0
        invariant
            b@.wf(),
            0 <= cr < 8,
            0 <= cc < 8,
            fuel <= 8,
            -1 <= dr <= 1,
            -1 <= dc <= 1,
            ray_reach(b@, from, dr as int, dc as int, tr as int, tc as int)
                == reach(b@, cr as int, cc as int, dr as int, dc as int, tr as int, tc as int, fuel as nat),
        decreases fuel,
    {
        let nr = cr + dr as i16;
        let nc = cc + dc as i16;
        if nr < 0 || nr >= 8 || nc < 0 || nc >= 8 {
            return false;
        }
        if nr == tr as i16 && nc == tc as i16 {
            return true;
        }
        if b.piece_at(nr as u8, nc as u8).is_some() {
            return false;
        }
        cr = nr;
        cc = nc;
        fuel = fuel - 1;
    }
    false
}

fn diagonal_reaches(b: &BoardState, from: Square, tr: i8, tc: i8) -> (r: bool)
    requires
        b@.wf(),
        from.valid(),
    ensures
        r == diagonal_reach(b@, from, tr as int, tc as int),
{
    reaches(b, from, 1, 1, tr, tc) || reaches(b, from, 1, -1, tr, tc)
        || reaches(b, from, -1, 1, tr, tc) || reaches(b, from, -1, -1, tr, tc)
}

fn straight_reaches(b: &BoardState, from: Square, tr: i8, tc: i8) -> (r: bool)
    requires
        b@.wf(),
        from.valid(),
    ensures
        r == straight_reach(b@, from, tr as int, tc as int),
{
    reaches(b, from, 1, 0, tr, tc) || reaches(b, from, -1, 0, tr, tc)
        || reaches(b, from, 0, 1, tr, tc) || reaches(b, from, 0, -1, tr, tc)
}

/// Whether piece `p` on `from` attacks square `(tr, tc)`.
pub fn piece_attacks(b: &BoardState, p: Piece, from: Square, tr: i8, tc: i8) -> (r: bool)
    requires
        b@.wf(),
        from.valid(),
    ensures
        r == attacks_from(b@, p, from, tr as int, tc as int),
{
    let dr: i16 = tr as i16 - from.row as i16;
    let dc: i16 = tc as i16 - from.column as i16;
    match p.kind {
        PieceKind::Pawn => {
            let dir: i16 = if p.color == Color::White { 1 } else { -1 };
            dr == dir && (dc == 1 || dc == -1)
        },
        PieceKind::Knight => ((dr == 1 || dr == -1) && (dc == 2 || dc == -2)) || ((dr == 2 || dr == -2) && (dc == 1 || dc == -1)),
        PieceKind::King => -1 <= dr && dr <= 1 && -1 <= dc && dc <= 1 && !(dr == 0 && dc == 0),
        PieceKind::Bishop => diagonal_reaches(b, from, tr, tc),
        PieceKind::Rook => straight_reaches(b, from, tr, tc),
        PieceKind::Queen => diagonal_reaches(b, from, tr, tc) || straight_reaches(b, from, tr, tc),
    }
}

/// Whether square `(tr, tc)` is attacked by a piece of color `by`.
pub fn is_square_attacked(b: &BoardState, tr: i8, tc: i8, by: Color) -> (r: bool)
    requires
        b@.wf(),
    ensures
        r == attacked(b@, tr as int, tc as int, by),
{
    let mut row: u8 = 0;
    while row < 8
        invariant
            b@.wf(),
            row <= 8,
            forall|i: int, j: int| 0 <= i < row ==> !#[trigger] attacker(b@, i, j, tr as int, tc as int, by),
        decreases 8 - row,
    {
        let mut col: u8 = 0;
        while col < 8
            invariant
                b@.wf(),
                row < 8,
                col <= 8,
                forall|i: int, j: int| 0 <= i < row ==> !#[trigger] attacker(b@, i, j, tr as int, tc as int, by),
                forall|j: int| 0 <= j < col ==> !#[trigger] attacker(b@, row as int, j, tr as int, tc as int, by),
            decreases 8 - col,
        {
            let from = Square { row, column: col };
            match b.piece_at(row, col) {
                Some(p) => {
                    if p.color == by && piece_attacks(b, p, from, tr, tc) {
                        assert(attacker(b@, row as int, col as int, tr as int, tc as int, by));
                        return true;
                    }
                },
                None => {},
            }
            col = col + 1;
        }
        assert forall|i: int, j: int| 0 <= i < row + 1 implies !#[trigger] attacker(b@, i, j, tr as int, tc as int, by) by {
            if i == row {
                if 0 <= j < 8 {
                    assert(!attacker(b@, row as int, j, tr as int, tc as int, by));
                }
            }
        }
        row = row + 1;
    }
    false
}

} // verus!
