use chess_moves::board::{initialize_board, BoardState};
use chess_moves::input::{text_to_square, user_input_to_move, user_input_to_type_and_rest_of_user_input};
use chess_moves::legality::{
    game_outcome, get_legal_moves_for_all_pieces, get_legal_moves_for_piece, get_legal_pawn_moves,
    is_king_in_check, outcome_of, select_move, Outcome,
};
use chess_moves::movegen::pseudo_legal_moves;
use chess_moves::notation::{
    column_to_letter, digit_to_row, kind_to_letter, letter_to_column, move_to_notation, move_to_notation_in,
};
use chess_moves::rules::is_square_attacked;
use chess_moves::types::{BoardError, Color, Move, Piece, PieceKind, Special, Square};

fn piece(color: Color, kind: PieceKind) -> Option<Piece> {
    Some(Piece { color, kind })
}

fn square(row: u8, column: u8) -> Square {
    Square { row, column }
}

fn notation(m: &Move) -> String {
    move_to_notation(m).unwrap()
}

#[test]
fn column_letters_round_trip() {
    for c in 0u8..8 {
        let s = column_to_letter(c).unwrap();
        assert_eq!(s.chars().count(), 1);
        assert_eq!(letter_to_column(s.chars().next().unwrap()), Ok(c));
    }
    assert_eq!(column_to_letter(0).unwrap(), "a");
    assert_eq!(column_to_letter(7).unwrap(), "h");
}

#[test]
fn column_past_board_is_out_of_board() {
    assert_eq!(column_to_letter(8), Err(BoardError::OutOfBoard));
    assert_eq!(column_to_letter(255), Err(BoardError::OutOfBoard));
    assert_eq!(letter_to_column('i'), Err(BoardError::OutOfBoard));
    assert_eq!(digit_to_row('9'), Err(BoardError::OutOfBoard));
    assert_eq!(digit_to_row('1'), Ok(0));
}

#[test]
fn initial_position_layout() {
    let b = initialize_board();
    assert_eq!(b.piece_at(0, 0), piece(Color::White, PieceKind::Rook));
    assert_eq!(b.piece_at(0, 3), piece(Color::White, PieceKind::Queen));
    assert_eq!(b.piece_at(0, 4), piece(Color::White, PieceKind::King));
    assert_eq!(b.piece_at(1, 5), piece(Color::White, PieceKind::Pawn));
    assert_eq!(b.piece_at(4, 4), None);
    assert_eq!(b.piece_at(6, 0), piece(Color::Black, PieceKind::Pawn));
    assert_eq!(b.piece_at(7, 6), piece(Color::Black, PieceKind::Knight));
    assert_eq!(b.piece_at(7, 4), piece(Color::Black, PieceKind::King));
    assert_eq!(b.turn, Color::White);
    assert!(b.white_kingside && b.white_queenside && b.black_kingside && b.black_queenside);
    assert_eq!(b.en_passant, None);
}

#[test]
fn lookup_off_board_is_out_of_board() {
    let mut b = initialize_board();
    assert_eq!(b.get(8, 0), Err(BoardError::OutOfBoard));
    assert_eq!(b.get(0, 8), Err(BoardError::OutOfBoard));
    assert_eq!(b.get(0, 1), Ok(piece(Color::White, PieceKind::Knight)));
    assert_eq!(b.set(9, 9, None), Err(BoardError::OutOfBoard));
}

#[test]
fn initial_position_has_twenty_moves_each_side() {
    let b = initialize_board();
    let white = get_legal_moves_for_all_pieces(&b, Color::White);
    assert_eq!(white.len(), 20);
    assert_eq!(white.iter().filter(|m| m.kind == PieceKind::Pawn).count(), 16);
    assert_eq!(white.iter().filter(|m| m.kind == PieceKind::Knight).count(), 4);
    let black = get_legal_moves_for_all_pieces(&b, Color::Black);
    assert_eq!(black.len(), 20);
    assert!(black.iter().all(|m| m.from.row >= 6));
}

#[test]
fn moves_come_in_board_order() {
    let b = initialize_board();
    let moves = get_legal_moves_for_all_pieces(&b, Color::White);
    for w in moves.windows(2) {
        let a = w[0].from.row as u32 * 8 + w[0].from.column as u32;
        let c = w[1].from.row as u32 * 8 + w[1].from.column as u32;
        assert!(a <= c);
    }
    let first = select_move(moves).unwrap();
    assert_eq!(notation(&first), "Sc3");
    assert_eq!(first.from, square(0, 1));
    assert_eq!(select_move(Vec::new()), None);
}

#[test]
fn lone_rook_on_d4_has_fourteen_moves() {
    let mut b = BoardState::empty_board(Color::White);
    b.set(3, 3, piece(Color::White, PieceKind::Rook)).unwrap();
    let rook = Piece { color: Color::White, kind: PieceKind::Rook };
    let moves = pseudo_legal_moves(&b, rook, square(3, 3));
    assert_eq!(moves.len(), 14);
    assert!(moves.iter().all(|m| (m.to.row == 3) != (m.to.column == 3)));
    assert!(moves.iter().all(|m| !m.capture));
}

#[test]
fn bishop_stops_before_own_piece() {
    let mut b = BoardState::empty_board(Color::White);
    b.set(0, 2, piece(Color::White, PieceKind::Bishop)).unwrap();
    b.set(2, 4, piece(Color::White, PieceKind::Pawn)).unwrap();
    let bishop = Piece { color: Color::White, kind: PieceKind::Bishop };
    let moves = pseudo_legal_moves(&b, bishop, square(0, 2));
    let up_right: Vec<&Move> = moves.iter().filter(|m| m.to.column > 2).collect();
    assert_eq!(up_right.len(), 1);
    assert_eq!(up_right[0].to, square(1, 3));
    assert_eq!(moves.len(), 3);
}

#[test]
fn bishop_captures_opponent_and_stops() {
    let mut b = BoardState::empty_board(Color::White);
    b.set(0, 2, piece(Color::White, PieceKind::Bishop)).unwrap();
    b.set(2, 4, piece(Color::Black, PieceKind::Pawn)).unwrap();
    let bishop = Piece { color: Color::White, kind: PieceKind::Bishop };
    let moves = pseudo_legal_moves(&b, bishop, square(0, 2));
    let up_right: Vec<&Move> = moves.iter().filter(|m| m.to.column > 2).collect();
    assert_eq!(up_right.len(), 2);
    assert!(up_right.iter().any(|m| m.to == square(1, 3) && !m.capture));
    assert!(up_right.iter().any(|m| m.to == square(2, 4) && m.capture));
    assert_eq!(moves.len(), 4);
}

#[test]
fn knight_in_corner_and_queen_in_center() {
    let mut b = BoardState::empty_board(Color::White);
    b.set(0, 0, piece(Color::White, PieceKind::Knight)).unwrap();
    b.set(4, 4, piece(Color::White, PieceKind::Queen)).unwrap();
    let knight = Piece { color: Color::White, kind: PieceKind::Knight };
    assert_eq!(pseudo_legal_moves(&b, knight, square(0, 0)).len(), 2);
    let queen = Piece { color: Color::White, kind: PieceKind::Queen };
    assert_eq!(pseudo_legal_moves(&b, queen, square(4, 4)).len(), 26);
}

fn castling_board() -> BoardState {
    let mut b = BoardState::empty_board(Color::White);
    b.set(0, 4, piece(Color::White, PieceKind::King)).unwrap();
    b.set(0, 7, piece(Color::White, PieceKind::Rook)).unwrap();
    b.set(7, 0, piece(Color::Black, PieceKind::King)).unwrap();
    b.white_kingside = true;
    b
}

#[test]
fn castling_allowed_on_clear_safe_path() {
    let b = castling_board();
    let moves = get_legal_moves_for_all_pieces(&b, Color::White);
    let castle: Vec<&Move> = moves.iter().filter(|m| m.special == Some(Special::CastleKingside)).collect();
    assert_eq!(castle.len(), 1);
    assert_eq!(castle[0].to, square(0, 6));
    let after = b.apply_move(castle[0]);
    assert_eq!(after.piece_at(0, 6), piece(Color::White, PieceKind::King));
    assert_eq!(after.piece_at(0, 5), piece(Color::White, PieceKind::Rook));
    assert_eq!(after.piece_at(0, 7), None);
    assert!(!after.white_kingside);
}

#[test]
fn castling_excluded_through_attacked_square() {
    let mut b = castling_board();
    b.set(7, 5, piece(Color::Black, PieceKind::Rook)).unwrap();
    assert!(is_square_attacked(&b, 0, 5, Color::Black));
    let moves = get_legal_moves_for_all_pieces(&b, Color::White);
    assert!(moves.iter().all(|m| m.special.is_none()));
    let mut c = castling_board();
    c.set(7, 6, piece(Color::Black, PieceKind::Rook)).unwrap();
    let moves = get_legal_moves_for_all_pieces(&c, Color::White);
    assert!(moves.iter().all(|m| m.special.is_none()));
}

#[test]
fn en_passant_capture_removes_passed_pawn() {
    let mut b = BoardState::empty_board(Color::White);
    b.set(0, 4, piece(Color::White, PieceKind::King)).unwrap();
    b.set(7, 4, piece(Color::Black, PieceKind::King)).unwrap();
    b.set(4, 4, piece(Color::White, PieceKind::Pawn)).unwrap();
    b.set(4, 3, piece(Color::Black, PieceKind::Pawn)).unwrap();
    b.en_passant = Some(square(5, 3));
    let moves = get_legal_pawn_moves(&b, Color::White, square(4, 4));
    assert_eq!(moves.len(), 2);
    let ep = moves.iter().find(|m| m.special == Some(Special::EnPassant)).unwrap();
    assert_eq!(ep.to, square(5, 3));
    let after = b.apply_move(ep);
    assert_eq!(after.piece_at(4, 3), None);
    assert_eq!(after.piece_at(5, 3), piece(Color::White, PieceKind::Pawn));
}

#[test]
fn double_push_sets_en_passant_target() {
    let b = initialize_board();
    let moves = get_legal_pawn_moves(&b, Color::White, square(1, 4));
    assert_eq!(moves.len(), 2);
    let double = moves.iter().find(|m| m.to == square(3, 4)).unwrap();
    let after = b.apply_move(double);
    assert_eq!(after.en_passant, Some(square(2, 4)));
    assert_eq!(after.turn, Color::Black);
}

#[test]
fn pawn_on_seventh_promotes_four_ways() {
    let mut b = BoardState::empty_board(Color::White);
    b.set(0, 4, piece(Color::White, PieceKind::King)).unwrap();
    b.set(5, 7, piece(Color::Black, PieceKind::King)).unwrap();
    b.set(6, 0, piece(Color::White, PieceKind::Pawn)).unwrap();
    let moves = get_legal_pawn_moves(&b, Color::White, square(6, 0));
    assert_eq!(moves.len(), 4);
    for k in [PieceKind::Knight, PieceKind::Bishop, PieceKind::Rook, PieceKind::Queen] {
        assert!(moves.iter().any(|m| m.promotion == Some(k) && m.to == square(7, 0)));
    }
    let queen = moves.iter().find(|m| m.promotion == Some(PieceKind::Queen)).unwrap();
    let after = b.apply_move(queen);
    assert_eq!(after.piece_at(7, 0), piece(Color::White, PieceKind::Queen));
}

fn pinned_board() -> BoardState {
    let mut b = BoardState::empty_board(Color::White);
    b.set(0, 4, piece(Color::White, PieceKind::King)).unwrap();
    b.set(1, 4, piece(Color::White, PieceKind::Rook)).unwrap();
    b.set(2, 2, piece(Color::White, PieceKind::Knight)).unwrap();
    b.set(7, 4, piece(Color::Black, PieceKind::Rook)).unwrap();
    b.set(4, 0, piece(Color::Black, PieceKind::Bishop)).unwrap();
    b.set(7, 0, piece(Color::Black, PieceKind::King)).unwrap();
    b
}

fn check_filter_exhaustively(b: &BoardState, turn: Color) {
    let legal = get_legal_moves_for_all_pieces(b, turn);
    for row in 0u8..8 {
        for column in 0u8..8 {
            if let Some(p) = b.piece_at(row, column) {
                if p.color != turn {
                    continue;
                }
                for m in pseudo_legal_moves(b, p, square(row, column)) {
                    let after = b.apply_move(&m);
                    let safe = !is_king_in_check(&after, turn);
                    assert_eq!(legal.contains(&m), safe);
                }
            }
        }
    }
    for m in &legal {
        assert!(!is_king_in_check(&b.apply_move(m), turn));
    }
}

#[test]
fn filter_keeps_exactly_the_safe_moves() {
    let b = pinned_board();
    check_filter_exhaustively(&b, Color::White);
    check_filter_exhaustively(&b, Color::Black);
    check_filter_exhaustively(&castling_board(), Color::White);
    check_filter_exhaustively(&initialize_board(), Color::White);
    let all = get_legal_moves_for_all_pieces(&b, Color::White);
    let rook_legal: Vec<&Move> = all.iter().filter(|m| m.from == square(1, 4)).collect();
    assert_eq!(rook_legal.len(), 6);
    assert!(rook_legal.iter().all(|m| m.to.column == 4));
    assert!(all.iter().all(|m| m.from != square(2, 2)));
}

#[test]
fn checkmate_and_stalemate_are_told_apart() {
    let mut mate = BoardState::empty_board(Color::White);
    mate.set(0, 0, piece(Color::White, PieceKind::King)).unwrap();
    mate.set(1, 1, piece(Color::Black, PieceKind::Queen)).unwrap();
    mate.set(2, 2, piece(Color::Black, PieceKind::King)).unwrap();
    assert!(get_legal_moves_for_all_pieces(&mate, Color::White).is_empty());
    assert!(is_king_in_check(&mate, Color::White));
    assert_eq!(game_outcome(&mate, Color::White), Outcome::Checkmate);

    let mut stale = BoardState::empty_board(Color::White);
    stale.set(0, 0, piece(Color::White, PieceKind::King)).unwrap();
    stale.set(2, 1, piece(Color::Black, PieceKind::Queen)).unwrap();
    stale.set(7, 7, piece(Color::Black, PieceKind::King)).unwrap();
    assert!(get_legal_moves_for_all_pieces(&stale, Color::White).is_empty());
    assert!(!is_king_in_check(&stale, Color::White));
    assert_eq!(game_outcome(&stale, Color::White), Outcome::Stalemate);

    assert_eq!(game_outcome(&initialize_board(), Color::White), Outcome::InPlay);
    assert_eq!(outcome_of(&Vec::new(), true), Outcome::Checkmate);
    assert_eq!(outcome_of(&Vec::new(), false), Outcome::Stalemate);
}

#[test]
fn notation_of_pawn_and_knight_moves() {
    let pawn = Move { kind: PieceKind::Pawn, from: square(3, 4), to: square(4, 4), capture: false, promotion: None, special: None };
    assert_eq!(notation(&pawn), "e5");
    let knight = Move { kind: PieceKind::Knight, from: square(2, 5), to: square(4, 4), capture: false, promotion: None, special: None };
    assert_eq!(notation(&knight), "Se5");
    let off = Move { kind: PieceKind::King, from: square(0, 0), to: square(8, 0), capture: false, promotion: None, special: None };
    assert_eq!(move_to_notation(&off), Err(BoardError::OutOfBoard));
    assert_eq!(kind_to_letter(PieceKind::Pawn), "");
    assert_eq!(kind_to_letter(PieceKind::Queen), "D");
}

#[test]
fn move_text_is_parsed_against_legal_moves() {
    let b = initialize_board();
    let moves = get_legal_moves_for_all_pieces(&b, Color::White);
    let knight = user_input_to_move("Sf3".to_string(), &moves).unwrap();
    assert_eq!(knight.kind, PieceKind::Knight);
    assert_eq!(knight.from, square(0, 6));
    let pawn = user_input_to_move("e4".to_string(), &moves).unwrap();
    assert_eq!(pawn.from, square(1, 4));
    assert_eq!(user_input_to_move(String::new(), &moves), Err(BoardError::EmptyInput));
    assert_eq!(user_input_to_move("Se".to_string(), &moves), Err(BoardError::MalformedInput));
    assert_eq!(user_input_to_move("Sz9".to_string(), &moves), Err(BoardError::OutOfBoard));
    assert_eq!(user_input_to_move("Se5".to_string(), &moves), Err(BoardError::NoSuchMove));
}

#[test]
fn move_text_splits_off_piece_letter() {
    let (k, rest) = user_input_to_type_and_rest_of_user_input("Le3".to_string()).unwrap();
    assert_eq!(k, PieceKind::Bishop);
    assert_eq!(rest, "e3");
    let (k, rest) = user_input_to_type_and_rest_of_user_input("d4".to_string()).unwrap();
    assert_eq!(k, PieceKind::Pawn);
    assert_eq!(rest, "d4");
    assert_eq!(user_input_to_type_and_rest_of_user_input(String::new()), Err(BoardError::EmptyInput));
    assert_eq!(text_to_square("h8"), Ok(square(7, 7)));
}

#[test]
fn notation_names_origin_when_two_pieces_reach_a_square() {
    let mut b = BoardState::empty_board(Color::White);
    b.set(0, 4, piece(Color::White, PieceKind::King)).unwrap();
    b.set(7, 7, piece(Color::Black, PieceKind::King)).unwrap();
    b.set(0, 1, piece(Color::White, PieceKind::Knight)).unwrap();
    b.set(0, 5, piece(Color::White, PieceKind::Knight)).unwrap();
    b.set(4, 1, piece(Color::White, PieceKind::Knight)).unwrap();
    let moves = get_legal_moves_for_all_pieces(&b, Color::White);
    let to_d2: Vec<String> = moves
        .iter()
        .filter(|m| m.kind == PieceKind::Knight && m.to == square(1, 3))
        .map(|m| move_to_notation_in(&moves, m).unwrap())
        .collect();
    assert_eq!(to_d2.len(), 2);
    assert!(to_d2.contains(&"Sbd2".to_string()));
    assert!(to_d2.contains(&"Sfd2".to_string()));
    let to_c3: Vec<String> = moves
        .iter()
        .filter(|m| m.kind == PieceKind::Knight && m.to == square(2, 2))
        .map(|m| move_to_notation_in(&moves, m).unwrap())
        .collect();
    assert_eq!(to_c3.len(), 2);
    assert!(to_c3.contains(&"S1c3".to_string()));
    assert!(to_c3.contains(&"S5c3".to_string()));
    let lone = moves.iter().find(|m| m.to == square(6, 0)).unwrap();
    assert_eq!(move_to_notation_in(&moves, lone).unwrap(), "Sa7");
}

#[test]
fn notation_in_list_shows_promotion() {
    let mut b = BoardState::empty_board(Color::White);
    b.set(0, 4, piece(Color::White, PieceKind::King)).unwrap();
    b.set(5, 7, piece(Color::Black, PieceKind::King)).unwrap();
    b.set(6, 0, piece(Color::White, PieceKind::Pawn)).unwrap();
    let moves = get_legal_pawn_moves(&b, Color::White, square(6, 0));
    let texts: Vec<String> = moves.iter().map(|m| move_to_notation_in(&moves, m).unwrap()).collect();
    for t in ["a8S", "a8L", "a8T", "a8D"] {
        assert!(texts.contains(&t.to_string()));
    }
    let bad = Move { kind: PieceKind::Pawn, from: square(9, 0), to: square(7, 0), capture: false, promotion: None, special: None };
    assert_eq!(move_to_notation_in(&moves, &bad), Err(BoardError::OutOfBoard));
}

#[test]
fn piece_rules_ignore_pins() {
    let b = pinned_board();
    let rook = get_legal_moves_for_piece(&b, Piece { color: Color::White, kind: PieceKind::Rook }, square(1, 4));
    assert_eq!(rook.len(), 13);
    assert!(rook.iter().any(|m| m.to == square(1, 0)));
    let knight = get_legal_moves_for_piece(&b, Piece { color: Color::White, kind: PieceKind::Knight }, square(2, 2));
    assert_eq!(knight.len(), 7);
    assert!(knight.iter().all(|m| m.to != square(1, 4)));

    let mut p = BoardState::empty_board(Color::White);
    p.set(0, 0, piece(Color::White, PieceKind::King)).unwrap();
    p.set(1, 1, piece(Color::White, PieceKind::Pawn)).unwrap();
    p.set(3, 3, piece(Color::Black, PieceKind::Bishop)).unwrap();
    p.set(2, 0, piece(Color::Black, PieceKind::Knight)).unwrap();
    p.set(7, 7, piece(Color::Black, PieceKind::King)).unwrap();
    let pawn = get_legal_pawn_moves(&p, Color::White, square(1, 1));
    assert_eq!(pawn.len(), 3);
    assert!(pawn.iter().any(|m| m.to == square(2, 1) && !m.capture));
    assert!(pawn.iter().any(|m| m.to == square(3, 1)));
    assert!(pawn.iter().any(|m| m.to == square(2, 0) && m.capture));
    let legal = get_legal_moves_for_all_pieces(&p, Color::White);
    assert!(legal.iter().all(|m| m.from != square(1, 1)));
}

#[test]
fn legal_list_is_rule_lists_filtered_in_board_order() {
    for b in [initialize_board(), pinned_board(), castling_board()] {
        let mut expected: Vec<Move> = Vec::new();
        for row in 0u8..8 {
            for column in 0u8..8 {
                if let Some(p) = b.piece_at(row, column) {
                    if p.color == Color::White {
                        for m in get_legal_moves_for_piece(&b, p, square(row, column)) {
                            if !is_king_in_check(&b.apply_move(&m), Color::White) {
                                expected.push(m);
                            }
                        }
                    }
                }
            }
        }
        assert_eq!(get_legal_moves_for_all_pieces(&b, Color::White), expected);
    }
}

#[test]
fn initial_pawn_rules_give_two_pushes() {
    let b = initialize_board();
    let white = get_legal_pawn_moves(&b, Color::White, square(1, 4));
    assert_eq!(white.len(), 2);
    assert!(white.iter().any(|m| m.to == square(2, 4)));
    assert!(white.iter().any(|m| m.to == square(3, 4)));
    let black = get_legal_pawn_moves(&b, Color::Black, square(6, 4));
    assert_eq!(black.len(), 2);
    assert!(black.iter().any(|m| m.to == square(5, 4)));
    assert!(black.iter().any(|m| m.to == square(4, 4)));
}
