use yauche_game::board::{Board, Piece, PieceColor, PieceType};
use yauche_game::moves::Move;

fn plain(source: usize, target: usize, captured: Option<Piece>) -> Move {
    Move { source, target, captured, promotion: None, ep: None, castle: None }
}

fn piece(t: PieceType, c: PieceColor) -> Option<Piece> {
    Some(Piece { piece_type: t, piece_color: c })
}

fn empty_board() -> Board {
    let mut b = Board::default();
    for i in 0..120usize {
        b.fields[i] = None;
    }
    b
}

fn playable(i: usize) -> bool {
    21 <= i && i <= 98 && 1 <= i % 10 && i % 10 <= 8
}

#[test]
fn twenty_opening_moves_for_each_side() {
    let b = Board::default();
    let log: Vec<Move> = Vec::new();
    assert_eq!(b.get_v_moves(&PieceColor::White, &log).len(), 20);
    assert_eq!(b.get_v_moves(&PieceColor::Black, &log).len(), 20);
}

#[test]
fn generated_moves_never_target_padding() {
    let b = Board::default();
    let log: Vec<Move> = Vec::new();
    for color in [PieceColor::White, PieceColor::Black] {
        for m in b.get_pv_moves(&color, &log) {
            assert!(playable(m.source), "source {} off board", m.source);
            assert!(playable(m.target), "target {} off board", m.target);
        }
    }
}

#[test]
fn corner_pieces_stay_on_the_board() {
    let mut b = empty_board();
    b.fields[21] = piece(PieceType::Knight, PieceColor::White);
    b.fields[98] = piece(PieceType::Queen, PieceColor::White);
    b.fields[28] = piece(PieceType::King(true), PieceColor::White);
    b.fields[91] = piece(PieceType::King(true), PieceColor::Black);
    let log: Vec<Move> = Vec::new();
    let moves = b.get_pv_moves(&PieceColor::White, &log);
    assert!(!moves.is_empty());
    for m in moves {
        assert!(playable(m.source), "source {} off board", m.source);
        assert!(playable(m.target), "target {} off board", m.target);
    }
}

#[test]
fn promotion_yields_exactly_four_candidates() {
    let mut b = Board::default();
    b.fields[98] = None;
    b.fields[97] = None;
    b.fields[88] = piece(PieceType::Pawn(true), PieceColor::White);
    let log: Vec<Move> = Vec::new();
    let moves = b.get_pawn_moves(&PieceColor::White, &log);
    let from_pawn: Vec<&Move> = moves.iter().filter(|m| m.source == 88).collect();
    assert_eq!(from_pawn.len(), 4);
    let mut kinds: Vec<PieceType> = Vec::new();
    for m in &from_pawn {
        assert_eq!(m.target, 98);
        let p = m.promotion.expect("plain pawn move onto the farthest rank");
        assert_eq!(p.piece_color, PieceColor::White);
        kinds.push(p.piece_type);
    }
    assert!(kinds.contains(&PieceType::Queen));
    assert!(kinds.contains(&PieceType::Knight));
    assert!(kinds.contains(&PieceType::Bishop));
    assert!(kinds.contains(&PieceType::Rook(true)));
}

#[test]
fn promotion_capture_also_yields_four_candidates() {
    let mut b = Board::default();
    b.fields[98] = None;
    b.fields[88] = piece(PieceType::Pawn(true), PieceColor::White);
    let log: Vec<Move> = Vec::new();
    let moves = b.get_pawn_moves(&PieceColor::White, &log);
    let quiet: Vec<&Move> = moves.iter().filter(|m| m.source == 88 && m.target == 98).collect();
    let captures: Vec<&Move> =
        moves.iter().filter(|m| m.source == 88 && m.target == 97).collect();
    assert_eq!(quiet.len(), 4);
    assert_eq!(captures.len(), 4);
    for m in &captures {
        assert!(m.promotion.is_some());
        assert_eq!(m.captured, b.fields[97]);
    }
}

#[test]
fn en_passant_offered_right_after_the_double_step() {
    let mut b = Board::default();
    let mut log: Vec<Move> = Vec::new();
    b.make_move(&plain(35, 55, None), &mut log);
    b.make_move(&plain(81, 71, None), &mut log);
    b.make_move(&plain(55, 65, None), &mut log);
    b.make_move(&plain(84, 64, None), &mut log);
    let moves = b.get_pawn_moves(&PieceColor::White, &log);
    let ep: Vec<&Move> = moves.iter().filter(|m| m.ep.is_some()).collect();
    assert_eq!(ep.len(), 1);
    assert_eq!(ep[0].source, 65);
    assert_eq!(ep[0].target, 74);
    assert_eq!(ep[0].ep, Some(64));
    assert_eq!(ep[0].captured, b.fields[64]);
}

#[test]
fn en_passant_not_offered_a_move_later() {
    let mut b = Board::default();
    let mut log: Vec<Move> = Vec::new();
    b.make_move(&plain(35, 55, None), &mut log);
    b.make_move(&plain(81, 71, None), &mut log);
    b.make_move(&plain(55, 65, None), &mut log);
    b.make_move(&plain(84, 64, None), &mut log);
    b.make_move(&plain(31, 41, None), &mut log);
    b.make_move(&plain(71, 61, None), &mut log);
    let moves = b.get_pawn_moves(&PieceColor::White, &log);
    assert!(moves.iter().all(|m| m.ep.is_none()));
}

#[test]
fn en_passant_not_offered_after_a_single_step() {
    let mut b = Board::default();
    let mut log: Vec<Move> = Vec::new();
    b.make_move(&plain(35, 55, None), &mut log);
    b.make_move(&plain(84, 74, None), &mut log);
    b.make_move(&plain(55, 65, None), &mut log);
    b.make_move(&plain(74, 64, None), &mut log);
    let moves = b.get_pawn_moves(&PieceColor::White, &log);
    assert!(moves.iter().all(|m| m.ep.is_none()));
}

#[test]
fn castling_offered_when_path_clear_and_unmoved() {
    let mut b = Board::default();
    b.fields[26] = None;
    b.fields[27] = None;
    let log: Vec<Move> = Vec::new();
    let moves = b.get_king_moves(&PieceColor::White);
    let castles: Vec<&Move> = moves.iter().filter(|m| m.castle.is_some()).collect();
    assert_eq!(castles.len(), 1);
    assert_eq!(castles[0].source, 25);
    assert_eq!(castles[0].target, 27);
    assert!(castles[0].castle.unwrap().0);
    let legal = b.get_v_moves(&PieceColor::White, &log);
    assert!(legal.iter().any(|m| m.castle.is_some()));
}

#[test]
fn queen_side_castling_offered_when_path_clear() {
    let mut b = Board::default();
    b.fields[22] = None;
    b.fields[23] = None;
    b.fields[24] = None;
    let moves = b.get_king_moves(&PieceColor::White);
    let castles: Vec<&Move> = moves.iter().filter(|m| m.castle.is_some()).collect();
    assert_eq!(castles.len(), 1);
    assert_eq!(castles[0].source, 25);
    assert_eq!(castles[0].target, 23);
    assert!(!castles[0].castle.unwrap().0);
}

#[test]
fn castling_not_offered_when_blocked_or_moved() {
    let b = Board::default();
    let moves = b.get_king_moves(&PieceColor::White);
    assert!(moves.iter().all(|m| m.castle.is_none()));

    let mut b2 = Board::default();
    b2.fields[26] = None;
    b2.fields[27] = None;
    b2.fields[28] = piece(PieceType::Rook(true), PieceColor::White);
    let moves2 = b2.get_king_moves(&PieceColor::White);
    assert!(moves2.iter().all(|m| m.castle.is_none()));

    let mut b3 = Board::default();
    b3.fields[26] = None;
    b3.fields[27] = None;
    b3.fields[25] = piece(PieceType::King(true), PieceColor::White);
    let moves3 = b3.get_king_moves(&PieceColor::White);
    assert!(moves3.iter().all(|m| m.castle.is_none()));
}

#[test]
fn castling_eligibility_restored_by_undo() {
    let mut b = Board::default();
    b.fields[26] = None;
    b.fields[27] = None;
    let mut log: Vec<Move> = Vec::new();
    b.make_move(&plain(25, 26, None), &mut log);
    let after_king_move = b.get_king_moves(&PieceColor::White);
    assert!(after_king_move.iter().all(|m| m.castle.is_none()));
    assert!(b.undo_move(&mut log));
    let after_undo = b.get_king_moves(&PieceColor::White);
    assert!(after_undo.iter().any(|m| m.castle.is_some()));
}

#[test]
fn black_promotion_yields_exactly_four_candidates() {
    let mut b = Board::default();
    b.fields[21] = None;
    b.fields[22] = None;
    b.fields[31] = piece(PieceType::Pawn(true), PieceColor::Black);
    let log: Vec<Move> = Vec::new();
    let moves = b.get_pawn_moves(&PieceColor::Black, &log);
    let from_pawn: Vec<&Move> = moves.iter().filter(|m| m.source == 31).collect();
    assert_eq!(from_pawn.len(), 4);
    for m in &from_pawn {
        assert_eq!(m.target, 21);
        assert!(m.promotion.is_some());
        assert_eq!(m.promotion.unwrap().piece_color, PieceColor::Black);
    }
}

#[test]
fn black_en_passant_offered_after_white_double_step() {
    let mut b = Board::default();
    let mut log: Vec<Move> = Vec::new();
    b.make_move(&plain(84, 64, None), &mut log);
    b.make_move(&plain(81, 71, None), &mut log);
    b.make_move(&plain(64, 54, None), &mut log);
    b.make_move(&plain(35, 55, None), &mut log);
    let moves = b.get_pawn_moves(&PieceColor::Black, &log);
    let ep: Vec<&Move> = moves.iter().filter(|m| m.ep.is_some()).collect();
    assert_eq!(ep.len(), 1);
    assert_eq!(ep[0].source, 54);
    assert_eq!(ep[0].target, 45);
    assert_eq!(ep[0].ep, Some(55));
}

#[test]
fn black_castling_offered_both_sides_when_clear() {
    let mut b = Board::default();
    b.fields[96] = None;
    b.fields[97] = None;
    b.fields[92] = None;
    b.fields[93] = None;
    b.fields[94] = None;
    let moves = b.get_king_moves(&PieceColor::Black);
    let castles: Vec<&Move> = moves.iter().filter(|m| m.castle.is_some()).collect();
    assert_eq!(castles.len(), 2);
    assert!(castles.iter().any(|m| m.target == 97 && m.castle.unwrap().0));
    assert!(castles.iter().any(|m| m.target == 93 && !m.castle.unwrap().0));
}

#[test]
fn check_evasion_allows_only_king_moves() {
    let mut b = empty_board();
    b.fields[25] = piece(PieceType::King(false), PieceColor::White);
    b.fields[31] = piece(PieceType::Pawn(false), PieceColor::White);
    b.fields[75] = piece(PieceType::Rook(true), PieceColor::Black);
    b.fields[98] = piece(PieceType::King(true), PieceColor::Black);
    assert!(!b.validate());
    let log: Vec<Move> = Vec::new();
    let legal = b.get_v_moves(&PieceColor::White, &log);
    assert!(!legal.is_empty());
    for m in &legal {
        assert_eq!(m.source, 25, "only the king can resolve this check");
    }
}

#[test]
fn validate_accepts_the_initial_position() {
    assert!(Board::default().validate());
}

#[test]
fn validate_detects_rook_check() {
    let mut b = empty_board();
    b.fields[25] = piece(PieceType::King(false), PieceColor::White);
    b.fields[95] = piece(PieceType::King(false), PieceColor::Black);
    b.fields[65] = piece(PieceType::Rook(true), PieceColor::Black);
    assert!(!b.validate());
    b.fields[45] = piece(PieceType::Pawn(true), PieceColor::Black);
    assert!(b.validate(), "an interposed piece blocks the ray");
    b.fields[45] = None;
    b.fields[65] = None;
    b.fields[28] = piece(PieceType::Queen, PieceColor::Black);
    assert!(!b.validate(), "queen along the rank gives check");
}

#[test]
fn validate_detects_bishop_knight_and_pawn_checks() {
    let mut b = empty_board();
    b.fields[25] = piece(PieceType::King(false), PieceColor::White);
    b.fields[95] = piece(PieceType::King(false), PieceColor::Black);
    assert!(b.validate());
    b.fields[58] = piece(PieceType::Bishop, PieceColor::Black);
    assert!(!b.validate());
    b.fields[58] = None;
    b.fields[46] = piece(PieceType::Knight, PieceColor::Black);
    assert!(!b.validate());
    b.fields[46] = None;
    b.fields[36] = piece(PieceType::Pawn(true), PieceColor::Black);
    assert!(!b.validate());
    b.fields[36] = None;
    assert!(b.validate());
}

#[test]
fn validate_detects_adjacent_kings() {
    let mut b = empty_board();
    b.fields[25] = piece(PieceType::King(true), PieceColor::White);
    b.fields[26] = piece(PieceType::King(true), PieceColor::Black);
    assert!(!b.validate());
}

#[test]
fn legal_moves_keep_a_pinned_rook_on_the_file() {
    let mut b = empty_board();
    b.fields[25] = piece(PieceType::King(false), PieceColor::White);
    b.fields[35] = piece(PieceType::Rook(true), PieceColor::White);
    b.fields[85] = piece(PieceType::Queen, PieceColor::Black);
    b.fields[98] = piece(PieceType::King(false), PieceColor::Black);
    let log: Vec<Move> = Vec::new();
    let legal = b.get_v_moves(&PieceColor::White, &log);
    let rook_moves: Vec<&Move> = legal.iter().filter(|m| m.source == 35).collect();
    assert!(!rook_moves.is_empty());
    for m in rook_moves {
        assert_eq!(m.target % 10, 5, "pinned rook left the file: {}", m.target);
    }
}

#[test]
fn legal_moves_never_leave_own_king_attacked() {
    let b = Board::default();
    let mut log: Vec<Move> = Vec::new();
    for first in b.get_v_moves(&PieceColor::White, &log) {
        let mut b1 = b.clone();
        b1.make_move(&first, &mut log);
        for reply in b1.get_v_moves(&PieceColor::Black, &log) {
            let mut b2 = b1.clone();
            let mut inner = log.clone();
            b2.make_move(&reply, &mut inner);
            assert!(b2.validate());
        }
        log.pop();
    }
}
