use yauche_game::board::{Board, Piece, PieceColor, PieceType, COLUMNS, ROWS, SIZE};

fn playable(i: usize) -> bool {
    21 <= i && i <= 98 && 1 <= i % 10 && i % 10 <= 8
}

#[test]
fn grid_dimensions() {
    assert_eq!(COLUMNS, 10);
    assert_eq!(ROWS, 12);
    assert_eq!(SIZE, 120);
    assert_eq!(Board::default().fields.len(), 120);
}

#[test]
fn initial_white_back_rank() {
    let b = Board::default();
    for i in [21usize, 28] {
        let p = b.fields[i].unwrap();
        assert_eq!(p.piece_type, PieceType::Rook(false));
        assert_eq!(p.piece_color, PieceColor::White);
    }
    for i in [22usize, 27] {
        assert_eq!(b.fields[i].unwrap().piece_type, PieceType::Knight);
    }
    for i in [23usize, 26] {
        assert_eq!(b.fields[i].unwrap().piece_type, PieceType::Bishop);
    }
    assert_eq!(b.fields[24].unwrap().piece_type, PieceType::Queen);
    assert_eq!(b.fields[25].unwrap().piece_type, PieceType::King(false));
}

#[test]
fn initial_black_back_rank() {
    let b = Board::default();
    assert_eq!(b.fields[94].unwrap().piece_type, PieceType::Queen);
    assert_eq!(b.fields[95].unwrap().piece_type, PieceType::King(false));
    assert_eq!(b.fields[95].unwrap().piece_color, PieceColor::Black);
    for i in [91usize, 98] {
        assert_eq!(b.fields[i].unwrap().piece_type, PieceType::Rook(false));
        assert_eq!(b.fields[i].unwrap().piece_color, PieceColor::Black);
    }
}

#[test]
fn initial_pawn_ranks() {
    let b = Board::default();
    for i in 31..=38usize {
        let p = b.fields[i].unwrap();
        assert_eq!(p.piece_type, PieceType::Pawn(false));
        assert_eq!(p.piece_color, PieceColor::White);
    }
    for i in 81..=88usize {
        let p = b.fields[i].unwrap();
        assert_eq!(p.piece_type, PieceType::Pawn(false));
        assert_eq!(p.piece_color, PieceColor::Black);
    }
}

#[test]
fn initial_padding_and_middle_empty() {
    let b = Board::default();
    for i in 0..120usize {
        if !playable(i) {
            assert!(b.fields[i].is_none(), "padding cell {} not empty", i);
        }
        if 41 <= i && i <= 78 && playable(i) {
            assert!(b.fields[i].is_none(), "middle cell {} not empty", i);
        }
    }
}

#[test]
fn clone_copies_every_cell() {
    let b = Board::default();
    let c = b.clone();
    assert_eq!(b, c);
}

#[test]
fn piece_new_names() {
    assert_eq!(
        Piece::new("king", PieceColor::White).piece_type,
        PieceType::King(false)
    );
    assert_eq!(
        Piece::new("knight", PieceColor::Black).piece_type,
        PieceType::Knight
    );
    assert_eq!(
        Piece::new("rook", PieceColor::White).piece_type,
        PieceType::Rook(false)
    );
    assert_eq!(
        Piece::new("bishop", PieceColor::Black).piece_type,
        PieceType::Bishop
    );
    assert_eq!(
        Piece::new("queen", PieceColor::White).piece_type,
        PieceType::Queen
    );
    assert_eq!(Piece::new("queen", PieceColor::Black).piece_color, PieceColor::Black);
}

#[test]
fn piece_new_unknown_name_is_pawn() {
    assert_eq!(
        Piece::new("dragon", PieceColor::White).piece_type,
        PieceType::Pawn(false)
    );
    assert_eq!(Piece::new("", PieceColor::Black).piece_type, PieceType::Pawn(false));
}

#[test]
fn piece_default_is_white_pawn() {
    let p = Piece::default();
    assert_eq!(p.piece_type, PieceType::Pawn(false));
    assert_eq!(p.piece_color, PieceColor::White);
}

#[test]
fn render_shows_the_initial_position_back_rank_first() {
    let b = Board::default();
    let text: String = b.render().into_iter().collect();
    let expected = "\u{265C}\u{265E}\u{265D}\u{265B}\u{265A}\u{265D}\u{265E}\u{265C}\n\
                    \u{265F}\u{265F}\u{265F}\u{265F}\u{265F}\u{265F}\u{265F}\u{265F}\n\
                    \x20       \n\
                    \x20       \n\
                    \x20       \n\
                    \x20       \n\
                    \u{2659}\u{2659}\u{2659}\u{2659}\u{2659}\u{2659}\u{2659}\u{2659}\n\
                    \u{2656}\u{2658}\u{2657}\u{2655}\u{2654}\u{2657}\u{2658}\u{2656}\n";
    assert_eq!(text, expected);
}

#[test]
fn symbols_follow_the_table() {
    let w = PieceColor::White;
    let b = PieceColor::Black;
    assert_eq!(Piece::new("king", w).get_symbol(), '\u{2654}');
    assert_eq!(Piece::new("queen", w).get_symbol(), '\u{2655}');
    assert_eq!(Piece::new("rook", w).get_symbol(), '\u{2656}');
    assert_eq!(Piece::new("bishop", w).get_symbol(), '\u{2657}');
    assert_eq!(Piece::new("knight", w).get_symbol(), '\u{2658}');
    assert_eq!(Piece::new("pawn", w).get_symbol(), '\u{2659}');
    assert_eq!(Piece::new("king", b).get_symbol(), '\u{265A}');
    assert_eq!(Piece::new("queen", b).get_symbol(), '\u{265B}');
    assert_eq!(Piece::new("rook", b).get_symbol(), '\u{265C}');
    assert_eq!(Piece::new("bishop", b).get_symbol(), '\u{265D}');
    assert_eq!(Piece::new("knight", b).get_symbol(), '\u{265E}');
    assert_eq!(Piece::new("pawn", b).get_symbol(), '\u{265F}');
}
