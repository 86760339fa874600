use yauche_game::board::{Board, PieceColor};
use yauche_game::moves::Move;

#[test]
fn perft_depth_zero_counts_one_leaf() {
    let b = Board::default();
    let log: Vec<Move> = Vec::new();
    assert_eq!(b.perft(0, &log, &PieceColor::White), 1);
}

#[test]
fn perft_depth_one_is_twenty() {
    let b = Board::default();
    let log: Vec<Move> = Vec::new();
    assert_eq!(b.perft(1, &log, &PieceColor::White), 20);
    assert_eq!(b.perft(1, &log, &PieceColor::Black), 20);
}

#[test]
fn perft_depth_two_is_four_hundred() {
    let b = Board::default();
    let log: Vec<Move> = Vec::new();
    assert_eq!(b.perft(2, &log, &PieceColor::White), 400);
}
