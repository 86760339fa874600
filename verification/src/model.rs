//! The mathematical model of the engine: square geometry of the padded
//! 10x12 grid, piece predicates, and the board transformations performed by
//! applying and undoing a move. Executable code is specified against these
//! functions.

use vstd::prelude::*;
use crate::board::{Piece, PieceColor, PieceType};
use crate::moves::Move;

verus! {

/// The contents of a board: one optional piece per cell of the padded grid.
pub type Cells = Seq<Option<Piece>>;

/// A cell index lies on the playable inner 8x8 area: rows 2 through 9 of the
/// 12-row grid, columns 1 through 8 of the 10-column grid.
pub open spec fn playable(s: int) -> bool {
    21 <= s <= 98 && 1 <= s % 10 <= 8
}

/// A well-formed board: 120 cells, and every cell of the sentinel ring is
/// empty, so that ray and step generation can detect the edge by geometry
/// alone.
pub open spec fn board_ok(b: Cells) -> bool {
    &&& b.len() == 120
    &&& forall|k: int| 0 <= k < 120 && !playable(k) ==> b[k] is None
}

/// The opposing side.
pub open spec fn other(c: PieceColor) -> PieceColor {
    match c {
        PieceColor::White => PieceColor::Black,
        PieceColor::Black => PieceColor::White,
    }
}

/// The forward direction of a side's pawns, as a cell-index offset.
pub open spec fn forward(c: PieceColor) -> int {
    match c {
        PieceColor::White => 10,
        PieceColor::Black => -10,
    }
}

pub open spec fn is_pawn(t: PieceType) -> bool {
    match t {
        PieceType::Pawn(_) => true,
        _ => false,
    }
}

pub open spec fn is_king(t: PieceType) -> bool {
    match t {
        PieceType::King(_) => true,
        _ => false,
    }
}

/// The kind carries a movement-history flag and that flag is still `false`.
pub open spec fn unmoved_flag(t: PieceType) -> bool {
    t == PieceType::Pawn(false) || t == PieceType::Rook(false) || t == PieceType::King(false)
}

/// The kind carries a movement-history flag and that flag is `true`.
pub open spec fn moved_flag(t: PieceType) -> bool {
    t == PieceType::Pawn(true) || t == PieceType::Rook(true) || t == PieceType::King(true)
}

/// Sets the movement-history flag of a pawn, rook or king; other kinds are
/// unchanged.
pub open spec fn set_moved(p: Piece) -> Piece {
    match p.piece_type {
        PieceType::Pawn(false) => Piece { piece_type: PieceType::Pawn(true), ..p },
        PieceType::Rook(false) => Piece { piece_type: PieceType::Rook(true), ..p },
        PieceType::King(false) => Piece { piece_type: PieceType::King(true), ..p },
        _ => p,
    }
}

/// Clears the movement-history flag of a pawn, rook or king.
pub open spec fn clear_moved(p: Piece) -> Piece {
    match p.piece_type {
        PieceType::Pawn(true) => Piece { piece_type: PieceType::Pawn(false), ..p },
        PieceType::Rook(true) => Piece { piece_type: PieceType::Rook(false), ..p },
        PieceType::King(true) => Piece { piece_type: PieceType::King(false), ..p },
        _ => p,
    }
}

/// The cell lies on the rank where a piece of this kind and color stands in
/// the initial position: pawns one rank in front of the back rank, rooks and
/// kings on the back rank itself.
pub open spec fn on_start_rank(p: Piece, sq: int) -> bool {
    match p.piece_type {
        PieceType::Pawn(_) => match p.piece_color {
            PieceColor::White => 31 <= sq <= 38,
            PieceColor::Black => 81 <= sq <= 88,
        },
        PieceType::Rook(_) => match p.piece_color {
            PieceColor::White => 21 <= sq <= 28,
            PieceColor::Black => 91 <= sq <= 98,
        },
        PieceType::King(_) => match p.piece_color {
            PieceColor::White => 21 <= sq <= 28,
            PieceColor::Black => 91 <= sq <= 98,
        },
        _ => false,
    }
}

/// Undoing a plain move restores the flag of a pawn, rook or king that is
/// carried back onto its starting rank; this is how a first move is detected.
pub open spec fn restore_flag(o: Option<Piece>, src: int) -> Option<Piece> {
    match o {
        Some(p) => if moved_flag(p.piece_type) && on_start_rank(p, src) {
            Some(clear_moved(p))
        } else {
            Some(p)
        },
        None => None,
    }
}

/// Applying a plain move marks the moving piece as having moved.
pub open spec fn flag_moved(o: Option<Piece>) -> Option<Piece> {
    match o {
        Some(p) => Some(set_moved(p)),
        None => None,
    }
}

/// The cells a move writes all lie on the playable area, so that applying it
/// preserves the sentinel ring; for a castle this covers the two rook cells.
pub open spec fn move_wf(m: Move) -> bool {
    &&& playable(m.source as int)
    &&& playable(m.target as int)
    &&& match m.ep {
        Some(e) => playable(e as int),
        None => true,
    }
    &&& match m.castle {
        Some(c) => if c.0 {
            playable(m.source + 1) && playable(m.source + 3)
        } else {
            playable(m.source as int - 1) && playable(m.source as int - 4)
        },
        None => true,
    }
}

/// The board produced by applying a move: the four branches are, in priority
/// order, promotion, en passant, castle, and a plain move.
pub open spec fn spec_apply(b: Cells, m: Move) -> Cells {
    let s = m.source as int;
    let t = m.target as int;
    if m.promotion is Some {
        b.update(s, None).update(t, m.promotion)
    } else {
        match m.ep {
            Some(e) => {
                let b1 = b.update(e as int, None);
                b1.update(t, b1[s]).update(s, None)
            },
            None => match m.castle {
                Some(c) => {
                    let b1 = b.update(t, b[s]).update(s, None);
                    if c.0 {
                        b1.update(s + 1, Some(c.1)).update(s + 3, None)
                    } else {
                        b1.update(s - 1, Some(c.1)).update(s - 4, None)
                    }
                },
                None => {
                    let b1 = b.update(s, flag_moved(b[s]));
                    b1.update(t, b1[s]).update(s, None)
                },
            },
        }
    }
}

/// The board produced by undoing a move, inverting exactly the branch that
/// applying it took.
pub open spec fn spec_undo(b: Cells, m: Move) -> Cells {
    let s = m.source as int;
    let t = m.target as int;
    match m.promotion {
        Some(pr) => {
            b.update(s, Some(Piece { piece_type: PieceType::Pawn(true), piece_color: pr.piece_color }))
                .update(t, m.captured)
        },
        None => match m.ep {
            Some(e) => {
                let b1 = b.update(e as int, m.captured);
                b1.update(s, b1[t]).update(t, None)
            },
            None => match m.castle {
                Some(c) => {
                    let b1 = b.update(s, b[t]).update(t, None);
                    if c.0 {
                        b1.update(s + 3, Some(c.1)).update(s + 1, None)
                    } else {
                        b1.update(s - 4, Some(c.1)).update(s - 1, None)
                    }
                },
                None => {
                    b.update(s, restore_flag(b[t], s)).update(t, m.captured)
                },
            },
        },
    }
}

/// A move fits the board it is about to be applied to, closely enough that
/// undoing is an exact inverse: the recorded capture matches the occupant of
/// the captured cell, the written cells are pairwise distinct, a promotion
/// starts from a flagged pawn of the promotion color, a castle finds the
/// rook on its corner cell and empty cells where it writes, and for a plain
/// move of a pawn, rook or king the movement flag is `false` exactly when
/// the piece stands on its starting rank, which is how undoing detects a
/// first move.
pub open spec fn reversible(b: Cells, m: Move) -> bool {
    let s = m.source as int;
    let t = m.target as int;
    &&& b.len() == 120
    &&& move_wf(m)
    &&& s != t
    &&& match m.promotion {
        Some(pr) => {
            &&& m.captured == b[t]
            &&& b[s] == Some(
                Piece { piece_type: PieceType::Pawn(true), piece_color: pr.piece_color },
            )
        },
        None => match m.ep {
            Some(ep) => {
                let e = ep as int;
                &&& e != s
                &&& e != t
                &&& m.captured == b[e]
                &&& b[t] is None
            },
            None => match m.castle {
                Some(c) => if c.0 {
                    &&& t != s + 1
                    &&& t != s + 3
                    &&& b[t] is None
                    &&& b[s + 1] is None
                    &&& b[s + 3] == Some(c.1)
                } else {
                    &&& t != s - 1
                    &&& t != s - 4
                    &&& b[t] is None
                    &&& b[s - 1] is None
                    &&& b[s - 4] == Some(c.1)
                },
                None => {
                    &&& m.captured == b[t]
                    &&& match b[s] {
                        Some(p) => {
                            &&& unmoved_flag(p.piece_type) ==> on_start_rank(p, s)
                            &&& moved_flag(p.piece_type) ==> !on_start_rank(p, s)
                        },
                        None => true,
                    }
                },
            },
        },
    }
}

/// The contents of a cell of the initial position: the canonical back ranks
/// on rows 2 and 9, pawns on rows 3 and 8, every other cell empty.
pub open spec fn init_cell(i: int) -> Option<Piece> {
    if i == 21 || i == 28 {
        Some(Piece { piece_type: PieceType::Rook(false), piece_color: PieceColor::White })
    } else if i == 22 || i == 27 {
        Some(Piece { piece_type: PieceType::Knight, piece_color: PieceColor::White })
    } else if i == 23 || i == 26 {
        Some(Piece { piece_type: PieceType::Bishop, piece_color: PieceColor::White })
    } else if i == 24 {
        Some(Piece { piece_type: PieceType::Queen, piece_color: PieceColor::White })
    } else if i == 25 {
        Some(Piece { piece_type: PieceType::King(false), piece_color: PieceColor::White })
    } else if 31 <= i <= 38 {
        Some(Piece { piece_type: PieceType::Pawn(false), piece_color: PieceColor::White })
    } else if i == 91 || i == 98 {
        Some(Piece { piece_type: PieceType::Rook(false), piece_color: PieceColor::Black })
    } else if i == 92 || i == 97 {
        Some(Piece { piece_type: PieceType::Knight, piece_color: PieceColor::Black })
    } else if i == 93 || i == 96 {
        Some(Piece { piece_type: PieceType::Bishop, piece_color: PieceColor::Black })
    } else if i == 94 {
        Some(Piece { piece_type: PieceType::Queen, piece_color: PieceColor::Black })
    } else if i == 95 {
        Some(Piece { piece_type: PieceType::King(false), piece_color: PieceColor::Black })
    } else if 81 <= i <= 88 {
        Some(Piece { piece_type: PieceType::Pawn(false), piece_color: PieceColor::Black })
    } else {
        None
    }
}

/// The initial position as a whole board.
pub open spec fn initial_cells() -> Cells {
    Seq::new(120, |i: int| init_cell(i))
}

} // verus!
