use yauche_game::board::{Board, Piece, PieceColor, PieceType};
use yauche_game::moves::Move;

fn plain(source: usize, target: usize, captured: Option<Piece>) -> Move {
    Move { source, target, captured, promotion: None, ep: None, castle: None }
}

fn white(t: PieceType) -> Option<Piece> {
    Some(Piece { piece_type: t, piece_color: PieceColor::White })
}

fn black(t: PieceType) -> Option<Piece> {
    Some(Piece { piece_type: t, piece_color: PieceColor::Black })
}

#[test]
fn apply_then_undo_restores_plain_move() {
    let mut b = Board::default();
    let before = b.clone();
    let mut log: Vec<Move> = Vec::new();
    b.make_move(&plain(35, 55, None), &mut log);
    assert_eq!(log.len(), 1);
    assert!(b.fields[35].is_none());
    assert_eq!(b.fields[55], white(PieceType::Pawn(true)));
    assert!(b.undo_move(&mut log));
    assert_eq!(b, before);
    assert_eq!(log.len(), 0);
}

#[test]
fn apply_then_undo_restores_capture() {
    let mut b = Board::default();
    let mut log: Vec<Move> = Vec::new();
    b.make_move(&plain(35, 55, None), &mut log);
    b.make_move(&plain(84, 64, None), &mut log);
    let before = b.clone();
    let captured = b.fields[64];
    b.make_move(&plain(55, 64, captured), &mut log);
    assert_eq!(b.fields[64], white(PieceType::Pawn(true)));
    assert!(b.undo_move(&mut log));
    assert_eq!(b, before);
    assert_eq!(log.len(), 2);
}

#[test]
fn apply_then_undo_restores_promotion() {
    let mut b = Board::default();
    b.fields[98] = None;
    b.fields[88] = white(PieceType::Pawn(true));
    let before = b.clone();
    let mut log: Vec<Move> = Vec::new();
    let m = Move {
        source: 88,
        target: 98,
        captured: None,
        promotion: white(PieceType::Queen),
        ep: None,
        castle: None,
    };
    b.make_move(&m, &mut log);
    assert_eq!(b.fields[98], white(PieceType::Queen));
    assert!(b.fields[88].is_none());
    assert!(b.undo_move(&mut log));
    assert_eq!(b, before);
}

#[test]
fn apply_then_undo_restores_en_passant() {
    let mut b = Board::default();
    b.fields[35] = None;
    b.fields[65] = white(PieceType::Pawn(true));
    b.fields[84] = None;
    b.fields[64] = black(PieceType::Pawn(true));
    let before = b.clone();
    let mut log: Vec<Move> = Vec::new();
    let m = Move {
        source: 65,
        target: 74,
        captured: b.fields[64],
        promotion: None,
        ep: Some(64),
        castle: None,
    };
    b.make_move(&m, &mut log);
    assert!(b.fields[64].is_none());
    assert!(b.fields[65].is_none());
    assert_eq!(b.fields[74], white(PieceType::Pawn(true)));
    assert!(b.undo_move(&mut log));
    assert_eq!(b, before);
}

#[test]
fn apply_then_undo_restores_king_side_castle() {
    let mut b = Board::default();
    b.fields[26] = None;
    b.fields[27] = None;
    let before = b.clone();
    let rook = b.fields[28].unwrap();
    let mut log: Vec<Move> = Vec::new();
    let m = Move {
        source: 25,
        target: 27,
        captured: None,
        promotion: None,
        ep: None,
        castle: Some((true, rook)),
    };
    b.make_move(&m, &mut log);
    assert_eq!(b.fields[27], white(PieceType::King(false)));
    assert_eq!(b.fields[26], white(PieceType::Rook(false)));
    assert!(b.fields[25].is_none());
    assert!(b.fields[28].is_none());
    assert!(b.undo_move(&mut log));
    assert_eq!(b, before);
}

#[test]
fn apply_then_undo_restores_queen_side_castle() {
    let mut b = Board::default();
    b.fields[22] = None;
    b.fields[23] = None;
    b.fields[24] = None;
    let before = b.clone();
    let rook = b.fields[21].unwrap();
    let mut log: Vec<Move> = Vec::new();
    let m = Move {
        source: 25,
        target: 23,
        captured: None,
        promotion: None,
        ep: None,
        castle: Some((false, rook)),
    };
    b.make_move(&m, &mut log);
    assert_eq!(b.fields[23], white(PieceType::King(false)));
    assert_eq!(b.fields[24], white(PieceType::Rook(false)));
    assert!(b.fields[25].is_none());
    assert!(b.fields[21].is_none());
    assert!(b.undo_move(&mut log));
    assert_eq!(b, before);
}

#[test]
fn undo_on_empty_log_fails_without_change() {
    let mut b = Board::default();
    let before = b.clone();
    let mut log: Vec<Move> = Vec::new();
    assert!(!b.undo_move(&mut log));
    assert_eq!(b, before);
    assert_eq!(log.len(), 0);
}

#[test]
fn rook_flag_toggles_on_apply_and_undo() {
    let mut b = Board::default();
    b.fields[31] = None;
    let mut log: Vec<Move> = Vec::new();
    b.make_move(&plain(21, 31, None), &mut log);
    assert_eq!(b.fields[31], white(PieceType::Rook(true)));
    assert!(b.undo_move(&mut log));
    assert_eq!(b.fields[21], white(PieceType::Rook(false)));
}

#[test]
fn king_flag_toggles_on_apply_and_undo() {
    let mut b = Board::default();
    b.fields[35] = None;
    let mut log: Vec<Move> = Vec::new();
    b.make_move(&plain(25, 35, None), &mut log);
    assert_eq!(b.fields[35], white(PieceType::King(true)));
    assert!(b.undo_move(&mut log));
    assert_eq!(b.fields[25], white(PieceType::King(false)));
}

#[test]
fn pawn_flag_not_cleared_when_undoing_a_later_move() {
    let mut b = Board::default();
    let mut log: Vec<Move> = Vec::new();
    b.make_move(&plain(35, 45, None), &mut log);
    let before = b.clone();
    b.make_move(&plain(45, 55, None), &mut log);
    assert!(b.undo_move(&mut log));
    assert_eq!(b, before);
    assert_eq!(b.fields[45], white(PieceType::Pawn(true)));
}

#[test]
fn promoted_pawn_variants_are_the_four_kinds() {
    let base = plain(88, 98, None);
    let variants = base.get_promoted_pawn(PieceColor::White);
    assert_eq!(variants.len(), 4);
    let kinds: Vec<PieceType> = variants
        .iter()
        .map(|m| m.promotion.unwrap().piece_type)
        .collect();
    assert_eq!(
        kinds,
        vec![
            PieceType::Queen,
            PieceType::Knight,
            PieceType::Bishop,
            PieceType::Rook(true)
        ]
    );
    for v in variants.iter() {
        assert_eq!(v.source, 88);
        assert_eq!(v.target, 98);
        assert_eq!(v.promotion.unwrap().piece_color, PieceColor::White);
    }
}

#[test]
fn is_on_board_rejects_exactly_the_outer_ring() {
    for t in 0..130usize {
        let m = plain(55, t, None);
        let expected = 21 <= t && t <= 98 && 1 <= t % 10 && t % 10 <= 8;
        assert_eq!(m.is_on_board(), expected, "cell {}", t);
    }
}
