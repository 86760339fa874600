//! Laws relating move generation, application and undo.

use vstd::prelude::*;
use crate::attack::{board_valid, square_attacked};
use crate::board::{Piece, PieceColor, PieceType};
use crate::gen::{castle_move_spec, castle_pre, corner_rook, pseudo_sound};
use crate::model::{
    board_ok, flag_moved, is_king, moved_flag, move_wf, on_start_rank, other, reversible,
    spec_apply, spec_undo, unmoved_flag, Cells,
};
use crate::moves::Move;

verus! {

/// A valid position leaves every king safe: in particular, after a move
/// that the legality filter accepted, the moving side's own king is not
/// attacked by the opposing color.
pub proof fn lemma_valid_board_king_safe(b: Cells, k: int, c: PieceColor)
    requires
        board_valid(b),
        0 <= k < 120,
        match b[k] {
            Some(p) => is_king(p.piece_type) && p.piece_color == c,
            None => false,
        },
    ensures
        !square_attacked(b, k, other(c)),
{
}

/// Reversibility: applying a move and then undoing it restores the board
/// exactly, and the log, extended by the move and then shortened by one
/// entry, is the pre-apply log again. This holds for every move category
/// (plain, capture, promotion, en passant, castle) whenever the move fits
/// the board as `reversible` states.
pub proof fn lemma_apply_then_undo(b: Cells, log: Seq<Move>, m: Move)
    requires
        reversible(b, m),
    ensures
        spec_undo(spec_apply(b, m), m) == b,
        log.push(m).drop_last() == log,
{
    assert(spec_undo(spec_apply(b, m), m) =~= b);
    assert(log.push(m).drop_last() =~= log);
}

/// Every move the generator emits is reversible, given the flag discipline
/// that legal play maintains: the pawn behind a promotion already carries
/// its movement flag, the cell an en-passant capture lands on is empty, and
/// for a plain move the moving piece's flag is `false` exactly when it
/// stands on its starting rank. In positions reached from the initial
/// position by pawn play the last condition always holds for pawns; a rook
/// or king that has left its starting rank and returned is the one input
/// this law leaves out.
pub proof fn lemma_generated_move_reversible(b: Cells, c: PieceColor, m: Move)
    requires
        board_ok(b),
        pseudo_sound(b, c, m),
        m.promotion is Some ==> b[m.source as int] == Some(
            Piece { piece_type: PieceType::Pawn(true), piece_color: c },
        ),
        m.ep is Some ==> b[m.target as int] is None,
        (m.promotion is None && m.ep is None && m.castle is None) ==> (match b[m.source as int] {
            Some(p) => {
                &&& unmoved_flag(p.piece_type) ==> on_start_rank(p, m.source as int)
                &&& moved_flag(p.piece_type) ==> !on_start_rank(p, m.source as int)
            },
            None => true,
        }),
    ensures
        reversible(b, m),
{
}

/// A plain move carries the source piece to the target with its movement
/// flag set, and clears the source; together with `lemma_apply_then_undo`,
/// which restores the board exactly, this is the flag toggle that castling
/// and double-step eligibility rest on.
pub proof fn lemma_plain_move_sets_flag(b: Cells, m: Move)
    requires
        b.len() == 120,
        move_wf(m),
        m.source != m.target,
        m.promotion is None,
        m.ep is None,
        m.castle is None,
    ensures
        spec_apply(b, m)[m.target as int] == flag_moved(b[m.source as int]),
        spec_apply(b, m)[m.source as int] is None,
{
}

/// Applying a castle move places the king two files toward the rook, puts
/// the rook on the cell the king crossed, and empties both origin cells.
pub proof fn lemma_castle_apply(b: Cells, c: PieceColor, s: int, ks: bool)
    requires
        board_ok(b),
        castle_pre(b, c, s, ks),
    ensures
        ks ==> spec_apply(b, castle_move_spec(b, s, true))[s + 2] == b[s],
        ks ==> spec_apply(b, castle_move_spec(b, s, true))[s + 1] == Some(corner_rook(b, s, true)),
        ks ==> spec_apply(b, castle_move_spec(b, s, true))[s] is None,
        ks ==> spec_apply(b, castle_move_spec(b, s, true))[s + 3] is None,
        !ks ==> spec_apply(b, castle_move_spec(b, s, false))[s - 2] == b[s],
        !ks ==> spec_apply(b, castle_move_spec(b, s, false))[s - 1] == Some(
            corner_rook(b, s, false),
        ),
        !ks ==> spec_apply(b, castle_move_spec(b, s, false))[s] is None,
        !ks ==> spec_apply(b, castle_move_spec(b, s, false))[s - 4] is None,
{
}

/// Reversibility of generated moves, in one step: applying such a move and
/// then undoing it restores the board exactly.
pub proof fn lemma_generated_apply_then_undo(b: Cells, log: Seq<Move>, c: PieceColor, m: Move)
    requires
        board_ok(b),
        pseudo_sound(b, c, m),
        m.promotion is Some ==> b[m.source as int] == Some(
            Piece { piece_type: PieceType::Pawn(true), piece_color: c },
        ),
        m.ep is Some ==> b[m.target as int] is None,
        (m.promotion is None && m.ep is None && m.castle is None) ==> (match b[m.source as int] {
            Some(p) => {
                &&& unmoved_flag(p.piece_type) ==> on_start_rank(p, m.source as int)
                &&& moved_flag(p.piece_type) ==> !on_start_rank(p, m.source as int)
            },
            None => true,
        }),
    ensures
        spec_undo(spec_apply(b, m), m) == b,
        log.push(m).drop_last() == log,
{
    lemma_generated_move_reversible(b, c, m);
    lemma_apply_then_undo(b, log, m);
}

} // verus!
