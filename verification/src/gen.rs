//! Pseudo-legal move generation: per-piece-kind ray and step generators
//! producing every geometrically valid move while ignoring check, together
//! with the predicates that state what each generated move satisfies.

use vstd::prelude::*;
use crate::attack::{board_valid, pawn_on};
use crate::board::{Board, Piece, PieceColor, PieceType};
use crate::model::{forward, is_pawn, move_wf, other, playable, spec_apply, Cells};
use crate::moves::{with_promotion, Move};

verus! {

/// The farthest rank from the moving side's point of view, stated over the
/// playable cell indices.
pub open spec fn promo_rank(c: PieceColor, t: int) -> bool {
    match c {
        PieceColor::White => t > 90,
        PieceColor::Black => t < 30,
    }
}

/// The four piece kinds a pawn may promote to. The rook variant carries its
/// movement flag already set.
pub open spec fn promotion_kind(t: PieceType) -> bool {
    ||| t == PieceType::Queen
    ||| t == PieceType::Knight
    ||| t == PieceType::Bishop
    ||| t == PieceType::Rook(true)
}

/// The rook standing on the castle corner belonging to side `ks` of the
/// king cell `s` (meaningful only under `castle_pre`).
pub open spec fn corner_rook(b: Cells, s: int, ks: bool) -> Piece {
    match b[if ks { s + 3 } else { s - 4 }] {
        Some(q) => q,
        None => Piece { piece_type: PieceType::Pawn(false), piece_color: PieceColor::White },
    }
}

/// Castling is generated for side `ks` from cell `s`: an unmoved king of
/// the moving color stands there, an unmoved rook stands on the fixed
/// corner offset, every cell strictly between them is empty, and the king
/// stands far enough from the sentinel files that the walked cells stay on
/// its rank. No check condition is tested here; the legality filter handles
/// the resulting position.
pub open spec fn castle_pre(b: Cells, c: PieceColor, s: int, ks: bool) -> bool {
    &&& playable(s)
    &&& b[s] == Some(Piece { piece_type: PieceType::King(false), piece_color: c })
    &&& if ks {
        &&& s % 10 <= 5
        &&& match b[s + 3] {
            Some(r) => r.piece_type == PieceType::Rook(false),
            None => false,
        }
        &&& b[s + 1] is None
        &&& b[s + 2] is None
    } else {
        &&& s % 10 >= 5
        &&& match b[s - 4] {
            Some(r) => r.piece_type == PieceType::Rook(false),
            None => false,
        }
        &&& b[s - 1] is None
        &&& b[s - 2] is None
        &&& b[s - 3] is None
    }
}

/// The move record that castling from `s` on side `ks` produces: the king
/// moves two files toward the rook, and the record carries the rook.
pub open spec fn castle_move_spec(b: Cells, s: int, ks: bool) -> Move {
    Move {
        source: s as usize,
        target: (if ks {
            s + 2
        } else {
            s - 2
        }) as usize,
        captured: None,
        promotion: None,
        ep: None,
        castle: Some((ks, corner_rook(b, s, ks))),
    }
}

/// An en-passant capture is generated from the pawn cell `s` toward file
/// side `right`: the log's most recent move was a double step by an
/// opposing pawn landing directly beside `s`, and the capturing pawn's
/// diagonal target lies on the playable area.
pub open spec fn ep_pre(b: Cells, log: Seq<Move>, c: PieceColor, s: int, right: bool) -> bool {
    &&& playable(s)
    &&& match b[s] {
        Some(p) => p.piece_color == c && is_pawn(p.piece_type),
        None => false,
    }
    &&& log.len() > 0
    &&& {
        let lm = log.last();
        let e = lm.target as int;
        &&& pawn_on(b, e, other(c))
        &&& e == lm.source + 2 * forward(other(c))
        &&& e == if right {
            s + 1
        } else {
            s - 1
        }
        &&& playable(e + forward(c))
    }
}

/// The move record that an en-passant capture from `s` produces: the pawn
/// steps diagonally over the opposing pawn's cell, which is recorded
/// separately so that application can clear it.
pub open spec fn ep_move_spec(b: Cells, log: Seq<Move>, c: PieceColor, s: int, right: bool) -> Move {
    let e = log.last().target as int;
    Move {
        source: s as usize,
        target: (e + forward(c)) as usize,
        captured: b[e],
        promotion: None,
        ep: Some(log.last().target),
        castle: None,
    }
}

/// What every generated move satisfies on the board it was generated from:
/// source and target are playable and distinct, the source holds a piece of
/// the moving color, the recorded capture is the actual occupant of the
/// captured cell and is enemy-colored, a promotion is recorded exactly for
/// the pawn steps and captures that reach the farthest rank and only with
/// the four promotion kinds, an en-passant record has the shape `ep_pre`
/// describes, and a castle record has the shape `castle_pre` describes.
pub open spec fn pseudo_sound(b: Cells, c: PieceColor, m: Move) -> bool {
    let s = m.source as int;
    let t = m.target as int;
    &&& move_wf(m)
    &&& s != t
    &&& match b[s] {
        Some(p) => p.piece_color == c,
        None => false,
    }
    &&& match m.captured {
        Some(q) => q.piece_color != c,
        None => true,
    }
    &&& (m.ep is None && m.castle is None) ==> m.captured == b[t]
    &&& match m.promotion {
        Some(q) => {
            &&& q.piece_color == c
            &&& promotion_kind(q.piece_type)
            &&& promo_rank(c, t)
            &&& match b[s] {
                Some(p) => is_pawn(p.piece_type),
                None => false,
            }
            &&& m.ep is None
            &&& m.castle is None
        },
        None => true,
    }
    &&& {
        let single_reach = t == s + forward(c) || t == s + forward(c) + 1 || t == s + forward(c)
            - 1;
        (match b[s] {
            Some(p) => is_pawn(p.piece_type),
            None => false,
        } && promo_rank(c, t) && single_reach) ==> m.promotion is Some
    }
    &&& match m.ep {
        Some(e) => {
            &&& pawn_on(b, e as int, other(c))
            &&& (e as int == s + 1 || e as int == s - 1)
            &&& t == e as int + forward(c)
            &&& m.captured == b[e as int]
            &&& m.promotion is None
            &&& m.castle is None
        },
        None => true,
    }
    &&& match m.castle {
        Some(cs) => {
            &&& castle_pre(b, c, s, cs.0)
            &&& cs.1 == corner_rook(b, s, cs.0)
            &&& t == if cs.0 {
                s + 2
            } else {
                s - 2
            }
            &&& m.captured is None
            &&& m.promotion is None
            &&& m.ep is None
        },
        None => true,
    }
}

/// The move list holds the given move.
pub open spec fn has_move(r: Seq<Move>, m: Move) -> bool {
    exists|i: int| 0 <= i < r.len() && r[i] == m
}

/// The move list holds all four promotion variants of `base`.
pub open spec fn has_all_promotions(r: Seq<Move>, base: Move, c: PieceColor) -> bool {
    &&& has_move(r, with_promotion(base, c, PieceType::Queen))
    &&& has_move(r, with_promotion(base, c, PieceType::Knight))
    &&& has_move(r, with_promotion(base, c, PieceType::Bishop))
    &&& has_move(r, with_promotion(base, c, PieceType::Rook(true)))
}

/// A held move is still held after the list grows at the end.
pub proof fn lemma_has_move_extend(a: Seq<Move>, b: Seq<Move>, m: Move)
    requires
        has_move(a, m),
        a.len() <= b.len(),
        forall|i: int| 0 <= i < a.len() ==> b[i] == a[i],
    ensures
        has_move(b, m),
{
    let i = choose|i: int| 0 <= i < a.len() && a[i] == m;
    assert(b[i] == m);
}

/// Held promotion variants are still held after the list grows at the end.
pub proof fn lemma_has_all_promotions_extend(a: Seq<Move>, b: Seq<Move>, base: Move, c: PieceColor)
    requires
        has_all_promotions(a, base, c),
        a.len() <= b.len(),
        forall|i: int| 0 <= i < a.len() ==> b[i] == a[i],
    ensures
        has_all_promotions(b, base, c),
{
    lemma_has_move_extend(a, b, with_promotion(base, c, PieceType::Queen));
    lemma_has_move_extend(a, b, with_promotion(base, c, PieceType::Knight));
    lemma_has_move_extend(a, b, with_promotion(base, c, PieceType::Bishop));
    lemma_has_move_extend(a, b, with_promotion(base, c, PieceType::Rook(true)));
}

/// A pawn of the moving color on `s` can step forward onto an empty cell
/// of the farthest rank.
pub open spec fn promo_step_pre(b: Cells, c: PieceColor, s: int) -> bool {
    &&& playable(s)
    &&& match b[s] {
        Some(p) => p.piece_color == c && is_pawn(p.piece_type),
        None => false,
    }
    &&& playable(s + forward(c))
    &&& b[s + forward(c)] is None
    &&& promo_rank(c, s + forward(c))
}

/// The plain record of that promoting step, before a promotion kind is
/// filled in.
pub open spec fn promo_step_base(c: PieceColor, s: int) -> Move {
    Move {
        source: s as usize,
        target: (s + forward(c)) as usize,
        captured: None,
        promotion: None,
        ep: None,
        castle: None,
    }
}

/// A pawn of the moving color on `s` can capture diagonally (toward file
/// side `right`) onto the farthest rank.
pub open spec fn promo_capture_pre(b: Cells, c: PieceColor, s: int, right: bool) -> bool {
    let t = s + forward(c) + if right {
        1
    } else {
        -1
    };
    &&& playable(s)
    &&& match b[s] {
        Some(p) => p.piece_color == c && is_pawn(p.piece_type),
        None => false,
    }
    &&& playable(t)
    &&& match b[t] {
        Some(q) => q.piece_color != c,
        None => false,
    }
    &&& promo_rank(c, t)
}

/// The plain record of that promoting capture, before a promotion kind is
/// filled in.
pub open spec fn promo_capture_base(b: Cells, c: PieceColor, s: int, right: bool) -> Move {
    let t = s + forward(c) + if right {
        1
    } else {
        -1
    };
    Move {
        source: s as usize,
        target: t as usize,
        captured: b[t],
        promotion: None,
        ep: None,
        castle: None,
    }
}

/// The log-dependent half of en-passant soundness: an en-passant record is
/// only generated when the log's most recent move was the opposing pawn's
/// double step onto the recorded cell.
pub open spec fn ep_sound(log: Seq<Move>, c: PieceColor, m: Move) -> bool {
    match m.ep {
        Some(e) => {
            &&& log.len() > 0
            &&& e == log.last().target
            &&& log.last().target as int == log.last().source + 2 * forward(other(c))
        },
        None => true,
    }
}

/// A plain move record from `s` to `t` carrying the given capture.
pub open spec fn plain_move(s: int, t: int, cap: Option<Piece>) -> Move {
    Move {
        source: s as usize,
        target: t as usize,
        captured: cap,
        promotion: None,
        ep: None,
        castle: None,
    }
}

/// The four promotion variants of `base`, in the order queen, knight,
/// bishop, rook.
pub open spec fn promotion_variants(base: Move, c: PieceColor) -> Seq<Move> {
    seq![
        with_promotion(base, c, PieceType::Queen),
        with_promotion(base, c, PieceType::Knight),
        with_promotion(base, c, PieceType::Bishop),
        with_promotion(base, c, PieceType::Rook(true)),
    ]
}

/// The moves emitted by walking one ray for the piece on `s`: standing at
/// `cur` with `fuel` cells left, a quiet move per empty cell, a final
/// capture when the first occupied cell holds an enemy piece, nothing
/// beyond the edge of the playable area.
pub open spec fn slide_ray_seq(
    b: Cells,
    s: int,
    cur: int,
    d: int,
    c: PieceColor,
    fuel: nat,
) -> Seq<Move>
    decreases fuel,
{
    if fuel == 0 {
        Seq::empty()
    } else if !playable(cur) {
        Seq::empty()
    } else {
        match b[cur] {
            Some(q) => if q.piece_color != c {
                seq![plain_move(s, cur, Some(q))]
            } else {
                Seq::empty()
            },
            None => seq![plain_move(s, cur, None)] + slide_ray_seq(
                b,
                s,
                cur + d,
                d,
                c,
                (fuel - 1) as nat,
            ),
        }
    }
}

/// The moves of a slider on `s`: its four rays, rank-and-file when `ortho`
/// and diagonal otherwise.
pub open spec fn slider_cell_seq(b: Cells, s: int, c: PieceColor, ortho: bool) -> Seq<Move> {
    if ortho {
        slide_ray_seq(b, s, s + 10, 10, c, 8) + slide_ray_seq(b, s, s + 1, 1, c, 8)
            + slide_ray_seq(b, s, s - 10, -10, c, 8) + slide_ray_seq(b, s, s - 1, -1, c, 8)
    } else {
        slide_ray_seq(b, s, s + 11, 11, c, 8) + slide_ray_seq(b, s, s + 9, 9, c, 8)
            + slide_ray_seq(b, s, s - 11, -11, c, 8) + slide_ray_seq(b, s, s - 9, -9, c, 8)
    }
}

/// The move of a stepping piece on `s` toward the single cell `t`: a quiet
/// move onto an empty playable cell, a capture onto an enemy piece, nothing
/// otherwise.
pub open spec fn step_move_seq(b: Cells, s: int, t: int, c: PieceColor) -> Seq<Move> {
    if !playable(t) {
        Seq::empty()
    } else {
        match b[t] {
            Some(q) => if q.piece_color != c {
                seq![plain_move(s, t, Some(q))]
            } else {
                Seq::empty()
            },
            None => seq![plain_move(s, t, None)],
        }
    }
}

/// A rook or queen of color `c` stands on `s`.
pub open spec fn rook_or_queen_at(b: Cells, c: PieceColor, s: int) -> bool {
    match b[s] {
        Some(p) => p.piece_color == c && (match p.piece_type {
            PieceType::Rook(_) => true,
            PieceType::Queen => true,
            _ => false,
        }),
        None => false,
    }
}

/// A bishop or queen of color `c` stands on `s`.
pub open spec fn bishop_or_queen_at(b: Cells, c: PieceColor, s: int) -> bool {
    match b[s] {
        Some(p) => p.piece_color == c && (match p.piece_type {
            PieceType::Bishop => true,
            PieceType::Queen => true,
            _ => false,
        }),
        None => false,
    }
}

/// A knight of color `c` stands on `s`.
pub open spec fn knight_at(b: Cells, c: PieceColor, s: int) -> bool {
    match b[s] {
        Some(p) => p.piece_color == c && p.piece_type == PieceType::Knight,
        None => false,
    }
}

/// A king of color `c`, either flag, stands on `s`.
pub open spec fn king_at(b: Cells, c: PieceColor, s: int) -> bool {
    match b[s] {
        Some(p) => p.piece_color == c && (match p.piece_type {
            PieceType::King(_) => true,
            _ => false,
        }),
        None => false,
    }
}

/// A pawn of color `c`, either flag, stands on `s`.
pub open spec fn pawn_at(b: Cells, c: PieceColor, s: int) -> bool {
    match b[s] {
        Some(p) => p.piece_color == c && is_pawn(p.piece_type),
        None => false,
    }
}

/// The moves of the rank-and-file sliders (rooks and queens) of color `c`
/// standing on cells `s` and beyond, in cell order.
pub open spec fn rook_rows_seq(b: Cells, c: PieceColor, s: int) -> Seq<Move>
    decreases 99 - s,
{
    if s >= 99 {
        Seq::empty()
    } else {
        (if rook_or_queen_at(b, c, s) {
            slider_cell_seq(b, s, c, true)
        } else {
            Seq::empty()
        }) + rook_rows_seq(b, c, s + 1)
    }
}

/// The moves of the diagonal sliders (bishops and queens) of color `c`
/// standing on cells `s` and beyond, in cell order.
pub open spec fn bishop_rows_seq(b: Cells, c: PieceColor, s: int) -> Seq<Move>
    decreases 99 - s,
{
    if s >= 99 {
        Seq::empty()
    } else {
        (if bishop_or_queen_at(b, c, s) {
            slider_cell_seq(b, s, c, false)
        } else {
            Seq::empty()
        }) + bishop_rows_seq(b, c, s + 1)
    }
}

/// The eight jump moves of a knight on `s`, in the fixed offset order.
pub open spec fn knight_cell_seq(b: Cells, s: int, c: PieceColor) -> Seq<Move> {
    (step_move_seq(b, s, s + 19, c) + step_move_seq(b, s, s + 21, c) + step_move_seq(
        b,
        s,
        s + 12,
        c,
    ) + step_move_seq(b, s, s - 8, c)) + (step_move_seq(b, s, s - 19, c) + step_move_seq(
        b,
        s,
        s - 21,
        c,
    ) + step_move_seq(b, s, s - 12, c) + step_move_seq(b, s, s + 8, c))
}

/// The moves of the knights of color `c` standing on cells `s` and beyond.
pub open spec fn knight_rows_seq(b: Cells, c: PieceColor, s: int) -> Seq<Move>
    decreases 99 - s,
{
    if s >= 99 {
        Seq::empty()
    } else {
        (if knight_at(b, c, s) {
            knight_cell_seq(b, s, c)
        } else {
            Seq::empty()
        }) + knight_rows_seq(b, c, s + 1)
    }
}

/// The eight step moves of a king on `s`, in the fixed offset order.
pub open spec fn king_cell_seq(b: Cells, s: int, c: PieceColor) -> Seq<Move> {
    (step_move_seq(b, s, s + 10, c) + step_move_seq(b, s, s + 11, c) + step_move_seq(
        b,
        s,
        s + 1,
        c,
    ) + step_move_seq(b, s, s - 9, c)) + (step_move_seq(b, s, s - 10, c) + step_move_seq(
        b,
        s,
        s - 11,
        c,
    ) + step_move_seq(b, s, s - 1, c) + step_move_seq(b, s, s + 9, c))
}

/// The step moves of the kings of color `c` standing on cells `s` and
/// beyond.
pub open spec fn king_rows_seq(b: Cells, c: PieceColor, s: int) -> Seq<Move>
    decreases 99 - s,
{
    if s >= 99 {
        Seq::empty()
    } else {
        (if king_at(b, c, s) {
            king_cell_seq(b, s, c)
        } else {
            Seq::empty()
        }) + king_rows_seq(b, c, s + 1)
    }
}

/// The castle moves available from cell `s`: king side then queen side,
/// each present exactly under `castle_pre`.
pub open spec fn castle_cell_seq(b: Cells, c: PieceColor, s: int) -> Seq<Move> {
    (if castle_pre(b, c, s, true) {
        seq![castle_move_spec(b, s, true)]
    } else {
        Seq::empty()
    }) + (if castle_pre(b, c, s, false) {
        seq![castle_move_spec(b, s, false)]
    } else {
        Seq::empty()
    })
}

/// The castle moves of the kings of color `c` standing on cells `s` and
/// beyond.
pub open spec fn castle_rows_seq(b: Cells, c: PieceColor, s: int) -> Seq<Move>
    decreases 99 - s,
{
    if s >= 99 {
        Seq::empty()
    } else {
        castle_cell_seq(b, c, s) + castle_rows_seq(b, c, s + 1)
    }
}

/// The forward moves of a pawn of color `c` on `s`: the double step of an
/// unmoved pawn over two empty cells, then the single step onto an empty
/// cell, expanded to its four promotion variants on the farthest rank.
pub open spec fn pawn_advance_seq(b: Cells, c: PieceColor, s: int) -> Seq<Move> {
    let f = forward(c);
    (if b[s] == Some(Piece { piece_type: PieceType::Pawn(false), piece_color: c }) && playable(
        s + f,
    ) && playable(s + 2 * f) && b[s + f] is None && b[s + 2 * f] is None {
        seq![plain_move(s, s + 2 * f, None)]
    } else {
        Seq::empty()
    }) + (if playable(s + f) && b[s + f] is None {
        if promo_rank(c, s + f) {
            promotion_variants(plain_move(s, s + f, None), c)
        } else {
            seq![plain_move(s, s + f, None)]
        }
    } else {
        Seq::empty()
    })
}

/// The diagonal capture of a pawn of color `c` on `s` toward file side
/// `right`, expanded to its four promotion variants on the farthest rank.
pub open spec fn pawn_capture_seq(b: Cells, c: PieceColor, s: int, right: bool) -> Seq<Move> {
    let t = s + forward(c) + if right {
        1
    } else {
        -1
    };
    if playable(t) {
        match b[t] {
            Some(q) => if q.piece_color != c {
                if promo_rank(c, t) {
                    promotion_variants(plain_move(s, t, Some(q)), c)
                } else {
                    seq![plain_move(s, t, Some(q))]
                }
            } else {
                Seq::empty()
            },
            None => Seq::empty(),
        }
    } else {
        Seq::empty()
    }
}

/// The en-passant capture of a pawn of color `c` on `s`, present exactly
/// when the log's most recent move was an opposing pawn's double step
/// landing directly beside `s` and the diagonal target is playable.
pub open spec fn pawn_ep_seq(b: Cells, log: Seq<Move>, c: PieceColor, s: int) -> Seq<Move> {
    if log.len() > 0 {
        let lm = log.last();
        let e = lm.target as int;
        let dbl = e == lm.source + 2 * forward(other(c));
        let enemy_pawn = match b[e] {
            Some(q) => q.piece_color != c && is_pawn(q.piece_type),
            None => false,
        };
        if dbl && enemy_pawn {
            if e == s + 1 {
                if playable(e + forward(c)) {
                    seq![
                        Move {
                            source: s as usize,
                            target: (e + forward(c)) as usize,
                            captured: b[e],
                            promotion: None,
                            ep: Some(lm.target),
                            castle: None,
                        },
                    ]
                } else {
                    Seq::empty()
                }
            } else if e == s - 1 {
                if playable(e + forward(c)) {
                    seq![
                        Move {
                            source: s as usize,
                            target: (e + forward(c)) as usize,
                            captured: b[e],
                            promotion: None,
                            ep: Some(lm.target),
                            castle: None,
                        },
                    ]
                } else {
                    Seq::empty()
                }
            } else {
                Seq::empty()
            }
        } else {
            Seq::empty()
        }
    } else {
        Seq::empty()
    }
}

/// Every move of the pawn of color `c` on `s`: forward steps, the two
/// diagonal captures, then en passant.
pub open spec fn pawn_cell_seq(b: Cells, log: Seq<Move>, c: PieceColor, s: int) -> Seq<Move> {
    if pawn_at(b, c, s) {
        pawn_advance_seq(b, c, s) + pawn_capture_seq(b, c, s, true) + pawn_capture_seq(
            b,
            c,
            s,
            false,
        ) + pawn_ep_seq(b, log, c, s)
    } else {
        Seq::empty()
    }
}

/// The moves of the pawns of color `c` standing on cells `s` and beyond.
pub open spec fn pawn_rows_seq(b: Cells, log: Seq<Move>, c: PieceColor, s: int) -> Seq<Move>
    decreases 99 - s,
{
    if s >= 99 {
        Seq::empty()
    } else {
        pawn_cell_seq(b, log, c, s) + pawn_rows_seq(b, log, c, s + 1)
    }
}

/// The full pseudo-legal move list of color `c`: pawns, knights, bishops,
/// rook-and-queen rays, king steps and castles, in generation order.
pub open spec fn pv_seq(b: Cells, log: Seq<Move>, c: PieceColor) -> Seq<Move> {
    pawn_rows_seq(b, log, c, 21) + knight_rows_seq(b, c, 21) + bishop_rows_seq(b, c, 21)
        + rook_rows_seq(b, c, 21) + king_rows_seq(b, c, 21) + castle_rows_seq(b, c, 21)
}

/// The members of `ms` whose application to `b` leaves a valid position,
/// in order: the legality filter, stated over sequences.
pub open spec fn filter_valid(b: Cells, ms: Seq<Move>) -> Seq<Move>
    decreases ms.len(),
{
    if ms.len() == 0 {
        Seq::empty()
    } else {
        filter_valid(b, ms.drop_last()) + (if board_valid(spec_apply(b, ms.last())) {
            seq![ms.last()]
        } else {
            Seq::empty()
        })
    }
}

impl Board {
    /// Walks one ray from `s` and appends a quiet move for every empty cell
    /// and a capture when the first occupied cell holds an enemy piece; the
    /// walk ends at the first occupied cell or at the edge of the playable
    /// area. The fuel bounds the walk at 8 cells, every cell a ray can
    /// reach on the 8-wide playable area.
    fn slide_from(&self, moves: &mut Vec<Move>, s: usize, d: i32, c: PieceColor)
        requires
            self.wf(),
            playable(s as int),
            -11 <= d <= 11,
            d != 0,
            match self@[s as int] {
                Some(p) => p.piece_color == c && !is_pawn(p.piece_type),
                None => false,
            },
        ensures
            final(moves)@.len() >= old(moves)@.len(),
            forall|i: int|
                0 <= i < old(moves)@.len() ==> final(moves)@[i] == old(moves)@[i],
            forall|i: int|
                old(moves)@.len() <= i < final(moves)@.len() ==> pseudo_sound(
                    self@,
                    c,
                    #[trigger] final(moves)@[i],
                ) && final(moves)@[i].ep is None && final(moves)@[i].castle is None
                    && final(moves)@[i].promotion is None,
            final(moves)@ == old(moves)@ + slide_ray_seq(
                self@,
                s as int,
                s as int + d,
                d as int,
                c,
                8,
            ),
    {
        let ghost full = slide_ray_seq(self@, s as int, s as int + d, d as int, c, 8);
        let mut cur: i32 = s as i32 + d;
        let mut fuel: u8 = 8;
        while fuel > 0
            invariant
                self.wf(),
                playable(s as int),
                -11 <= d <= 11,
                d != 0,
                -100 <= cur <= 220,
                d > 0 ==> (cur as int) > (s as int),
                d < 0 ==> (cur as int) < (s as int),
                match self@[s as int] {
                    Some(p) => p.piece_color == c && !is_pawn(p.piece_type),
                    None => false,
                },
                full == slide_ray_seq(self@, s as int, s as int + d, d as int, c, 8),
                old(moves)@ + full == moves@ + slide_ray_seq(
                    self@,
                    s as int,
                    cur as int,
                    d as int,
                    c,
                    fuel as nat,
                ),
                moves@.len() >= old(moves)@.len(),
                forall|i: int|
                    0 <= i < old(moves)@.len() ==> moves@[i] == old(moves)@[i],
                forall|i: int|
                    old(moves)@.len() <= i < moves@.len() ==> pseudo_sound(
                        self@,
                        c,
                        #[trigger] moves@[i],
                    ) && moves@[i].ep is None && moves@[i].castle is None && moves@[i].promotion
                        is None,
            decreases fuel,
        {
            if !crate::attack::on_board_i(cur) {
                proof {
                    assert(old(moves)@ + full =~= moves@);
                }
                return ;
            }
            let t = cur as usize;
            match self.fields[t] {
                Some(q) => {
                    if q.piece_color != c {
                        moves.push(Move::create_move(s, t, Some(q)));
                    }
                    proof {
                        assert(old(moves)@ + full =~= moves@);
                    }
                    return ;
                },
                None => {
                    let ghost tail = slide_ray_seq(
                        self@,
                        s as int,
                        cur as int + d,
                        d as int,
                        c,
                        (fuel - 1) as nat,
                    );
                    moves.push(Move::create_move(s, t, None));
                    proof {
                        assert(old(moves)@ + full =~= moves@ + tail);
                    }
                    cur = cur + d;
                    fuel = fuel - 1;
                },
            }
        }
        proof {
            assert(old(moves)@ + full =~= moves@);
        }
    }

    /// Appends the move of a stepping piece (knight or king) from `s` to
    /// the single cell `t_i`: a quiet move onto an empty playable cell, a
    /// capture onto an enemy piece, and nothing for a friendly piece or a
    /// cell off the playable area.
    fn push_step(&self, moves: &mut Vec<Move>, s: usize, t_i: i32, c: PieceColor)
        requires
            self.wf(),
            playable(s as int),
            t_i != s as i32,
            -200 <= t_i <= 400,
            match self@[s as int] {
                Some(p) => p.piece_color == c && !is_pawn(p.piece_type),
                None => false,
            },
        ensures
            final(moves)@.len() >= old(moves)@.len(),
            forall|i: int|
                0 <= i < old(moves)@.len() ==> final(moves)@[i] == old(moves)@[i],
            forall|i: int|
                old(moves)@.len() <= i < final(moves)@.len() ==> pseudo_sound(
                    self@,
                    c,
                    #[trigger] final(moves)@[i],
                ) && final(moves)@[i].ep is None && final(moves)@[i].castle is None
                    && final(moves)@[i].promotion is None,
            final(moves)@ == old(moves)@ + step_move_seq(self@, s as int, t_i as int, c),
    {
        if !crate::attack::on_board_i(t_i) {
            proof {
                assert(old(moves)@ + step_move_seq(self@, s as int, t_i as int, c) =~= moves@);
            }
            return ;
        }
        let t = t_i as usize;
        match self.fields[t] {
            Some(q) => {
                if q.piece_color != c {
                    moves.push(Move::create_move(s, t, Some(q)));
                }
            },
            None => {
                moves.push(Move::create_move(s, t, None));
            },
        }
        proof {
            assert(old(moves)@ + step_move_seq(self@, s as int, t_i as int, c) =~= moves@);
        }
    }

    /// Appends the castle moves available from cell `s`: for each side, an
    /// unmoved king of the moving color on `s`, an unmoved rook on the
    /// fixed corner offset, and empty cells strictly between them; the
    /// check condition is left to the legality filter.
    fn push_castles(&self, moves: &mut Vec<Move>, s: usize, c: PieceColor)
        requires
            self.wf(),
            21 <= s < 99,
        ensures
            final(moves)@.len() >= old(moves)@.len(),
            forall|i: int|
                0 <= i < old(moves)@.len() ==> final(moves)@[i] == old(moves)@[i],
            forall|i: int|
                old(moves)@.len() <= i < final(moves)@.len() ==> pseudo_sound(
                    self@,
                    c,
                    #[trigger] final(moves)@[i],
                ) && final(moves)@[i].ep is None && final(moves)@[i].promotion is None,
            castle_pre(self@, c, s as int, true) ==> exists|i: int|
                0 <= i < final(moves)@.len() && final(moves)@[i] == castle_move_spec(
                    self@,
                    s as int,
                    true,
                ),
            castle_pre(self@, c, s as int, false) ==> exists|i: int|
                0 <= i < final(moves)@.len() && final(moves)@[i] == castle_move_spec(
                    self@,
                    s as int,
                    false,
                ),
            final(moves)@ == old(moves)@ + castle_cell_seq(self@, c, s as int),
    {
        let ghost mut ks_at: int = 0;
        let ghost mut qs_at: int = 0;
        match self.fields[s] {
            Some(p) => {
                let unmoved_king = match p.piece_type {
                    PieceType::King(false) => true,
                    _ => false,
                };
                if unmoved_king && p.piece_color == c {
                    if s % 10 <= 5 {
                        match self.fields[s + 3] {
                            Some(rk) => {
                                let unmoved_rook = match rk.piece_type {
                                    PieceType::Rook(false) => true,
                                    _ => false,
                                };
                                if unmoved_rook && self.fields[s + 1].is_none() && self.fields[s
                                    + 2].is_none() {
                                    proof {
                                        assert(playable(s as int + 1));
                                        assert(playable(s as int + 2));
                                        assert(playable(s as int + 3));
                                    }
                                    moves.push(
                                        Move {
                                            source: s,
                                            target: s + 2,
                                            captured: None,
                                            promotion: None,
                                            ep: None,
                                            castle: Some((true, rk)),
                                        },
                                    );
                                    proof {
                                        ks_at = moves@.len() - 1;
                                        assert(moves@[ks_at] == castle_move_spec(
                                            self@,
                                            s as int,
                                            true,
                                        ));
                                    }
                                }
                            },
                            None => {},
                        }
                    }
                    if s % 10 >= 5 {
                        match self.fields[s - 4] {
                            Some(rk) => {
                                let unmoved_rook = match rk.piece_type {
                                    PieceType::Rook(false) => true,
                                    _ => false,
                                };
                                if unmoved_rook && self.fields[s - 1].is_none() && self.fields[s
                                    - 2].is_none() && self.fields[s - 3].is_none() {
                                    proof {
                                        assert(playable(s as int - 1));
                                        assert(playable(s as int - 2));
                                        assert(playable(s as int - 4));
                                    }
                                    moves.push(
                                        Move {
                                            source: s,
                                            target: s - 2,
                                            captured: None,
                                            promotion: None,
                                            ep: None,
                                            castle: Some((false, rk)),
                                        },
                                    );
                                    proof {
                                        qs_at = moves@.len() - 1;
                                        assert(moves@[qs_at] == castle_move_spec(
                                            self@,
                                            s as int,
                                            false,
                                        ));
                                    }
                                }
                            },
                            None => {},
                        }
                    }
                }
            },
            None => {},
        }
        proof {
            if castle_pre(self@, c, s as int, true) {
                assert(moves@[ks_at] == castle_move_spec(self@, s as int, true));
            }
            if castle_pre(self@, c, s as int, false) {
                assert(moves@[qs_at] == castle_move_spec(self@, s as int, false));
            }
            assert(moves@ =~= old(moves)@ + castle_cell_seq(self@, c, s as int));
        }
    }

    /// Appends the forward pawn moves available from cell `s`: the double
    /// step of an unmoved pawn over two empty cells, and the single step
    /// onto an empty cell, replaced by its four promotion variants when it
    /// reaches the farthest rank.
    fn push_pawn_advance(&self, moves: &mut Vec<Move>, s: usize, c: PieceColor)
        requires
            self.wf(),
            21 <= s < 99,
        ensures
            final(moves)@.len() >= old(moves)@.len(),
            forall|i: int|
                0 <= i < old(moves)@.len() ==> final(moves)@[i] == old(moves)@[i],
            forall|i: int|
                old(moves)@.len() <= i < final(moves)@.len() ==> pseudo_sound(
                    self@,
                    c,
                    #[trigger] final(moves)@[i],
                ) && final(moves)@[i].ep is None && final(moves)@[i].castle is None,
            promo_step_pre(self@, c, s as int) ==> has_all_promotions(
                final(moves)@,
                promo_step_base(c, s as int),
                c,
            ),
            final(moves)@ == old(moves)@ + (if pawn_at(self@, c, s as int) {
                pawn_advance_seq(self@, c, s as int)
            } else {
                Seq::<Move>::empty()
            }),
    {
        let ghost mut step_at: int = 0;
        match self.fields[s] {
            Some(p) => {
                let pawnish = match p.piece_type {
                    PieceType::Pawn(_) => true,
                    _ => false,
                };
                if pawnish && p.piece_color == c {
                    let step: i32 = match c {
                        PieceColor::White => 10,
                        PieceColor::Black => -10,
                    };
                    let si = s as i32;
                    let t1 = si + step;
                    let t2 = si + 2 * step;
                    let unmoved = match p.piece_type {
                        PieceType::Pawn(false) => true,
                        _ => false,
                    };
                    if unmoved && crate::attack::on_board_i(t1) && crate::attack::on_board_i(
                        t2,
                    ) {
                        if self.fields[t1 as usize].is_none() && self.fields[t2
                            as usize].is_none() {
                            moves.push(Move::create_move(s, t2 as usize, None));
                        }
                    }
                    if crate::attack::on_board_i(t1) {
                        let t1u = t1 as usize;
                        if self.fields[t1u].is_none() {
                            let base = Move::create_move(s, t1u, None);
                            let promo = match c {
                                PieceColor::White => t1u > 90,
                                PieceColor::Black => t1u < 30,
                            };
                            if promo {
                                push_promotions(moves, base, c);
                                proof {
                                    step_at = moves@.len() - 4;
                                }
                            } else {
                                moves.push(base);
                            }
                        }
                    }
                }
            },
            None => {},
        }
        proof {
            if promo_step_pre(self@, c, s as int) {
                let base = promo_step_base(c, s as int);
                assert(moves@[step_at] == with_promotion(base, c, PieceType::Queen));
                assert(moves@[step_at + 1] == with_promotion(base, c, PieceType::Knight));
                assert(moves@[step_at + 2] == with_promotion(base, c, PieceType::Bishop));
                assert(moves@[step_at + 3] == with_promotion(base, c, PieceType::Rook(true)));
                assert(has_all_promotions(moves@, base, c));
            }
            assert(moves@ =~= old(moves)@ + (if pawn_at(self@, c, s as int) {
                pawn_advance_seq(self@, c, s as int)
            } else {
                Seq::<Move>::empty()
            }));
        }
    }

    /// Appends the diagonal pawn capture available from cell `s` toward
    /// file side `right`, replaced by its four promotion variants when it
    /// reaches the farthest rank.
    fn push_pawn_capture(&self, moves: &mut Vec<Move>, s: usize, c: PieceColor, right: bool)
        requires
            self.wf(),
            21 <= s < 99,
        ensures
            final(moves)@.len() >= old(moves)@.len(),
            forall|i: int|
                0 <= i < old(moves)@.len() ==> final(moves)@[i] == old(moves)@[i],
            forall|i: int|
                old(moves)@.len() <= i < final(moves)@.len() ==> pseudo_sound(
                    self@,
                    c,
                    #[trigger] final(moves)@[i],
                ) && final(moves)@[i].ep is None && final(moves)@[i].castle is None,
            promo_capture_pre(self@, c, s as int, right) ==> has_all_promotions(
                final(moves)@,
                promo_capture_base(self@, c, s as int, right),
                c,
            ),
            final(moves)@ == old(moves)@ + (if pawn_at(self@, c, s as int) {
                pawn_capture_seq(self@, c, s as int, right)
            } else {
                Seq::<Move>::empty()
            }),
    {
        let ghost mut cap_at: int = 0;
        match self.fields[s] {
            Some(p) => {
                let pawnish = match p.piece_type {
                    PieceType::Pawn(_) => true,
                    _ => false,
                };
                if pawnish && p.piece_color == c {
                    let step: i32 = match c {
                        PieceColor::White => 10,
                        PieceColor::Black => -10,
                    };
                    let t1 = s as i32 + step;
                    let tc = if right {
                        t1 + 1
                    } else {
                        t1 - 1
                    };
                    if crate::attack::on_board_i(tc) {
                        let tcu = tc as usize;
                        match self.fields[tcu] {
                            Some(q) => {
                                if q.piece_color != c {
                                    let base = Move::create_move(s, tcu, Some(q));
                                    let promo = match c {
                                        PieceColor::White => tcu > 90,
                                        PieceColor::Black => tcu < 30,
                                    };
                                    if promo {
                                        push_promotions(moves, base, c);
                                        proof {
                                            cap_at = moves@.len() - 4;
                                        }
                                    } else {
                                        moves.push(base);
                                    }
                                }
                            },
                            None => {},
                        }
                    }
                }
            },
            None => {},
        }
        proof {
            if promo_capture_pre(self@, c, s as int, right) {
                let base = promo_capture_base(self@, c, s as int, right);
                assert(moves@[cap_at] == with_promotion(base, c, PieceType::Queen));
                assert(moves@[cap_at + 1] == with_promotion(base, c, PieceType::Knight));
                assert(moves@[cap_at + 2] == with_promotion(base, c, PieceType::Bishop));
                assert(moves@[cap_at + 3] == with_promotion(base, c, PieceType::Rook(true)));
                assert(has_all_promotions(moves@, base, c));
            }
            assert(moves@ =~= old(moves)@ + (if pawn_at(self@, c, s as int) {
                pawn_capture_seq(self@, c, s as int, right)
            } else {
                Seq::<Move>::empty()
            }));
        }
    }

    /// Appends every plain pawn move available from cell `s`: the forward
    /// steps and the two diagonal captures, with their promotion variants.
    fn push_pawn_steps(&self, moves: &mut Vec<Move>, s: usize, c: PieceColor)
        requires
            self.wf(),
            21 <= s < 99,
        ensures
            final(moves)@.len() >= old(moves)@.len(),
            forall|i: int|
                0 <= i < old(moves)@.len() ==> final(moves)@[i] == old(moves)@[i],
            forall|i: int|
                old(moves)@.len() <= i < final(moves)@.len() ==> pseudo_sound(
                    self@,
                    c,
                    #[trigger] final(moves)@[i],
                ) && final(moves)@[i].ep is None && final(moves)@[i].castle is None,
            promo_step_pre(self@, c, s as int) ==> has_all_promotions(
                final(moves)@,
                promo_step_base(c, s as int),
                c,
            ),
            promo_capture_pre(self@, c, s as int, true) ==> has_all_promotions(
                final(moves)@,
                promo_capture_base(self@, c, s as int, true),
                c,
            ),
            promo_capture_pre(self@, c, s as int, false) ==> has_all_promotions(
                final(moves)@,
                promo_capture_base(self@, c, s as int, false),
                c,
            ),
            final(moves)@ == old(moves)@ + (if pawn_at(self@, c, s as int) {
                pawn_advance_seq(self@, c, s as int) + pawn_capture_seq(self@, c, s as int, true)
                    + pawn_capture_seq(self@, c, s as int, false)
            } else {
                Seq::<Move>::empty()
            }),
    {
        self.push_pawn_advance(moves, s, c);
        let ghost m1 = moves@;
        self.push_pawn_capture(moves, s, c, true);
        let ghost m2 = moves@;
        self.push_pawn_capture(moves, s, c, false);
        proof {
            assert(moves@ =~= old(moves)@ + (if pawn_at(self@, c, s as int) {
                pawn_advance_seq(self@, c, s as int) + pawn_capture_seq(self@, c, s as int, true)
                    + pawn_capture_seq(self@, c, s as int, false)
            } else {
                Seq::<Move>::empty()
            }));
            if promo_step_pre(self@, c, s as int) {
                let base = promo_step_base(c, s as int);
                lemma_has_all_promotions_extend(m1, m2, base, c);
                lemma_has_all_promotions_extend(m2, moves@, base, c);
            }
            if promo_capture_pre(self@, c, s as int, true) {
                let base = promo_capture_base(self@, c, s as int, true);
                lemma_has_all_promotions_extend(m2, moves@, base, c);
            }
        }
    }

    /// Appends the en-passant capture available from cell `s`, if any: the
    /// log's most recent move must have been an opposing pawn's double
    /// step landing directly beside `s`, and the capture is emitted with
    /// the opposing pawn's cell recorded separately from the target.
    fn push_ep_from(&self, moves: &mut Vec<Move>, s: usize, c: PieceColor, log: &Vec<Move>)
        requires
            self.wf(),
            21 <= s < 99,
            log@.len() > 0 ==> move_wf(log@.last()),
        ensures
            final(moves)@.len() >= old(moves)@.len(),
            forall|i: int|
                0 <= i < old(moves)@.len() ==> final(moves)@[i] == old(moves)@[i],
            forall|i: int|
                old(moves)@.len() <= i < final(moves)@.len() ==> pseudo_sound(
                    self@,
                    c,
                    #[trigger] final(moves)@[i],
                ) && ep_sound(log@, c, final(moves)@[i]) && final(moves)@[i].castle is None,
            ep_pre(self@, log@, c, s as int, true) ==> exists|i: int|
                0 <= i < final(moves)@.len() && final(moves)@[i] == ep_move_spec(
                    self@,
                    log@,
                    c,
                    s as int,
                    true,
                ),
            ep_pre(self@, log@, c, s as int, false) ==> exists|i: int|
                0 <= i < final(moves)@.len() && final(moves)@[i] == ep_move_spec(
                    self@,
                    log@,
                    c,
                    s as int,
                    false,
                ),
            final(moves)@ == old(moves)@ + (if pawn_at(self@, c, s as int) {
                pawn_ep_seq(self@, log@, c, s as int)
            } else {
                Seq::<Move>::empty()
            }),
    {
        let ghost mut ep_r_at: int = 0;
        let ghost mut ep_l_at: int = 0;
        match self.fields[s] {
            Some(p) => {
                let pawnish = match p.piece_type {
                    PieceType::Pawn(_) => true,
                    _ => false,
                };
                if pawnish && p.piece_color == c {
                    let step: i32 = match c {
                        PieceColor::White => 10,
                        PieceColor::Black => -10,
                    };
                    let t1 = s as i32 + step;
                    if log.len() > 0 {
                        let lm = log[log.len() - 1];
                        let e = lm.target;
                        let dbl_ok = match c {
                            PieceColor::White => lm.target + 20 == lm.source,
                            PieceColor::Black => lm.source + 20 == lm.target,
                        };
                        let enemy_pawn = match self.fields[e] {
                            Some(q) => q.piece_color != c && (match q.piece_type {
                                PieceType::Pawn(_) => true,
                                _ => false,
                            }),
                            None => false,
                        };
                        if dbl_ok && enemy_pawn {
                            if e == s + 1 {
                                let t = t1 + 1;
                                if crate::attack::on_board_i(t) {
                                    let cap = self.fields[e];
                                    proof {
                                        assert(!promo_rank(c, t as int));
                                    }
                                    moves.push(
                                        Move {
                                            source: s,
                                            target: t as usize,
                                            captured: cap,
                                            promotion: None,
                                            ep: Some(e),
                                            castle: None,
                                        },
                                    );
                                    proof {
                                        ep_r_at = moves@.len() - 1;
                                        assert(moves@[ep_r_at] == ep_move_spec(
                                            self@,
                                            log@,
                                            c,
                                            s as int,
                                            true,
                                        ));
                                    }
                                }
                            } else if e + 1 == s {
                                let t = t1 - 1;
                                if crate::attack::on_board_i(t) {
                                    let cap = self.fields[e];
                                    proof {
                                        assert(!promo_rank(c, t as int));
                                    }
                                    moves.push(
                                        Move {
                                            source: s,
                                            target: t as usize,
                                            captured: cap,
                                            promotion: None,
                                            ep: Some(e),
                                            castle: None,
                                        },
                                    );
                                    proof {
                                        ep_l_at = moves@.len() - 1;
                                        assert(moves@[ep_l_at] == ep_move_spec(
                                            self@,
                                            log@,
                                            c,
                                            s as int,
                                            false,
                                        ));
                                    }
                                }
                            }
                        }
                    }
                }
            },
            None => {},
        }
        proof {
            if ep_pre(self@, log@, c, s as int, true) {
                assert(moves@[ep_r_at] == ep_move_spec(self@, log@, c, s as int, true));
            }
            if ep_pre(self@, log@, c, s as int, false) {
                assert(moves@[ep_l_at] == ep_move_spec(self@, log@, c, s as int, false));
            }
            assert(moves@ =~= old(moves)@ + (if pawn_at(self@, c, s as int) {
                pawn_ep_seq(self@, log@, c, s as int)
            } else {
                Seq::<Move>::empty()
            }));
        }
    }

    /// All pseudo-legal pawn moves of the given color, including promotion
    /// variants and en-passant captures.
    #[verifier::rlimit(100)]
    pub fn get_pawn_moves(&self, color: &PieceColor, log: &Vec<Move>) -> (r: Vec<Move>)
        requires
            self.wf(),
            log@.len() > 0 ==> move_wf(log@.last()),
        ensures
            forall|i: int|
                0 <= i < r@.len() ==> pseudo_sound(self@, *color, #[trigger] r@[i]) && ep_sound(
                    log@,
                    *color,
                    r@[i],
                ) && r@[i].castle is None,
            forall|sp: int|
                #[trigger] ep_pre(self@, log@, *color, sp, true) ==> exists|i: int|
                    0 <= i < r@.len() && r@[i] == ep_move_spec(self@, log@, *color, sp, true),
            forall|sp: int|
                #[trigger] ep_pre(self@, log@, *color, sp, false) ==> exists|i: int|
                    0 <= i < r@.len() && r@[i] == ep_move_spec(self@, log@, *color, sp, false),
            forall|sp: int|
                #[trigger] promo_step_pre(self@, *color, sp) ==> has_all_promotions(
                    r@,
                    promo_step_base(*color, sp),
                    *color,
                ),
            forall|sp: int|
                #[trigger] promo_capture_pre(self@, *color, sp, true) ==> has_all_promotions(
                    r@,
                    promo_capture_base(self@, *color, sp, true),
                    *color,
                ),
            forall|sp: int|
                #[trigger] promo_capture_pre(self@, *color, sp, false) ==> has_all_promotions(
                    r@,
                    promo_capture_base(self@, *color, sp, false),
                    *color,
                ),
            r@ == pawn_rows_seq(self@, log@, *color, 21),
    {
        let mut moves: Vec<Move> = Vec::new();
        let mut s: usize = 21;
        while s < 99
            invariant
                self.wf(),
                21 <= s <= 99,
                log@.len() > 0 ==> move_wf(log@.last()),
                moves@ + pawn_rows_seq(self@, log@, *color, s as int) == pawn_rows_seq(
                    self@,
                    log@,
                    *color,
                    21,
                ),
                forall|sp: int|
                    sp < s && #[trigger] promo_step_pre(self@, *color, sp)
                        ==> has_all_promotions(moves@, promo_step_base(*color, sp), *color),
                forall|sp: int|
                    sp < s && #[trigger] promo_capture_pre(self@, *color, sp, true)
                        ==> has_all_promotions(
                        moves@,
                        promo_capture_base(self@, *color, sp, true),
                        *color,
                    ),
                forall|sp: int|
                    sp < s && #[trigger] promo_capture_pre(self@, *color, sp, false)
                        ==> has_all_promotions(
                        moves@,
                        promo_capture_base(self@, *color, sp, false),
                        *color,
                    ),
                forall|i: int|
                    0 <= i < moves@.len() ==> pseudo_sound(self@, *color, #[trigger] moves@[i])
                        && ep_sound(log@, *color, moves@[i]) && moves@[i].castle is None,
                forall|sp: int|
                    sp < s && #[trigger] ep_pre(self@, log@, *color, sp, true) ==> exists|i: int|
                        0 <= i < moves@.len() && moves@[i] == ep_move_spec(
                            self@,
                            log@,
                            *color,
                            sp,
                            true,
                        ),
                forall|sp: int|
                    sp < s && #[trigger] ep_pre(self@, log@, *color, sp, false) ==> exists|
                        i: int,
                    |
                        0 <= i < moves@.len() && moves@[i] == ep_move_spec(
                            self@,
                            log@,
                            *color,
                            sp,
                            false,
                        ),
            decreases 99 - s,
        {
            let ghost moves0 = moves@;
            self.push_pawn_steps(&mut moves, s, *color);
            let ghost moves1 = moves@;
            self.push_ep_from(&mut moves, s, *color, log);
            proof {
                if pawn_at(self@, *color, s as int) {
                    vstd::seq_lib::lemma_concat_associative(
                        moves0,
                        pawn_advance_seq(self@, *color, s as int) + pawn_capture_seq(
                            self@,
                            *color,
                            s as int,
                            true,
                        ) + pawn_capture_seq(self@, *color, s as int, false),
                        pawn_ep_seq(self@, log@, *color, s as int),
                    );
                } else {
                    assert(moves0 + Seq::<Move>::empty() =~= moves0);
                }
                assert(moves@ =~= moves0 + pawn_cell_seq(self@, log@, *color, s as int));
                assert(moves@ + pawn_rows_seq(self@, log@, *color, s as int + 1)
                    =~= pawn_rows_seq(self@, log@, *color, 21));
                assert forall|sp: int|
                    sp < s + 1 && #[trigger] ep_pre(self@, log@, *color, sp, true) implies exists|
                    i: int,
                |
                    0 <= i < moves@.len() && moves@[i] == ep_move_spec(
                        self@,
                        log@,
                        *color,
                        sp,
                        true,
                    ) by {
                    if sp < s {
                        let i = choose|i: int|
                            0 <= i < moves0.len() && moves0[i] == ep_move_spec(
                                self@,
                                log@,
                                *color,
                                sp,
                                true,
                            );
                        assert(moves1[i] == moves0[i]);
                        assert(moves@[i] == ep_move_spec(self@, log@, *color, sp, true));
                    }
                }
                assert forall|sp: int|
                    sp < s + 1 && #[trigger] ep_pre(self@, log@, *color, sp, false) implies exists|
                    i: int,
                |
                    0 <= i < moves@.len() && moves@[i] == ep_move_spec(
                        self@,
                        log@,
                        *color,
                        sp,
                        false,
                    ) by {
                    if sp < s {
                        let i = choose|i: int|
                            0 <= i < moves0.len() && moves0[i] == ep_move_spec(
                                self@,
                                log@,
                                *color,
                                sp,
                                false,
                            );
                        assert(moves1[i] == moves0[i]);
                        assert(moves@[i] == ep_move_spec(self@, log@, *color, sp, false));
                    }
                }
                assert forall|sp: int|
                    sp < s + 1 && #[trigger] promo_step_pre(self@, *color, sp)
                        implies has_all_promotions(
                    moves@,
                    promo_step_base(*color, sp),
                    *color,
                ) by {
                    let base = promo_step_base(*color, sp);
                    if sp < s {
                        lemma_has_all_promotions_extend(moves0, moves1, base, *color);
                    }
                    lemma_has_all_promotions_extend(moves1, moves@, base, *color);
                }
                assert forall|sp: int|
                    sp < s + 1 && #[trigger] promo_capture_pre(self@, *color, sp, true)
                        implies has_all_promotions(
                    moves@,
                    promo_capture_base(self@, *color, sp, true),
                    *color,
                ) by {
                    let base = promo_capture_base(self@, *color, sp, true);
                    if sp < s {
                        lemma_has_all_promotions_extend(moves0, moves1, base, *color);
                    }
                    lemma_has_all_promotions_extend(moves1, moves@, base, *color);
                }
                assert forall|sp: int|
                    sp < s + 1 && #[trigger] promo_capture_pre(self@, *color, sp, false)
                        implies has_all_promotions(
                    moves@,
                    promo_capture_base(self@, *color, sp, false),
                    *color,
                ) by {
                    let base = promo_capture_base(self@, *color, sp, false);
                    if sp < s {
                        lemma_has_all_promotions_extend(moves0, moves1, base, *color);
                    }
                    lemma_has_all_promotions_extend(moves1, moves@, base, *color);
                }
            }
            s = s + 1;
        }
        proof {
            assert(moves@ =~= pawn_rows_seq(self@, log@, *color, 21));
        }
        moves
    }

    /// All pseudo-legal rank-and-file slider moves of the given color: the
    /// rooks and the queens, walking the four orthogonal rays.
    #[verifier::rlimit(100)]
    pub fn get_rook_moves(&self, color: &PieceColor) -> (r: Vec<Move>)
        requires
            self.wf(),
        ensures
            forall|i: int|
                0 <= i < r@.len() ==> pseudo_sound(self@, *color, #[trigger] r@[i]) && r@[i].ep
                    is None && r@[i].castle is None && r@[i].promotion is None,
            r@ == rook_rows_seq(self@, *color, 21),
    {
        let mut moves: Vec<Move> = Vec::new();
        let mut s: usize = 21;
        while s < 99
            invariant
                self.wf(),
                21 <= s <= 99,
                moves@ + rook_rows_seq(self@, *color, s as int) == rook_rows_seq(self@, *color, 21),
                forall|i: int|
                    0 <= i < moves@.len() ==> pseudo_sound(self@, *color, #[trigger] moves@[i])
                        && moves@[i].ep is None && moves@[i].castle is None && moves@[i].promotion
                        is None,
            decreases 99 - s,
        {
            let ghost moves0 = moves@;
            match self.fields[s] {
                Some(p) => {
                    let slider = match p.piece_type {
                        PieceType::Rook(_) => true,
                        PieceType::Queen => true,
                        _ => false,
                    };
                    if slider && p.piece_color == *color {
                        self.slide_from(&mut moves, s, 10, *color);
                        self.slide_from(&mut moves, s, 1, *color);
                        self.slide_from(&mut moves, s, -10, *color);
                        self.slide_from(&mut moves, s, -1, *color);
                    }
                },
                None => {},
            }
            proof {
                assert(moves@ =~= moves0 + (if rook_or_queen_at(self@, *color, s as int) {
                    slider_cell_seq(self@, s as int, *color, true)
                } else {
                    Seq::<Move>::empty()
                }));
                assert(moves@ + rook_rows_seq(self@, *color, s as int + 1) =~= rook_rows_seq(
                    self@,
                    *color,
                    21,
                ));
            }
            s = s + 1;
        }
        proof {
            assert(moves@ =~= rook_rows_seq(self@, *color, 21));
        }
        moves
    }

    /// All pseudo-legal diagonal slider moves of the given color: the
    /// bishops and the queens, walking the four diagonal rays.
    #[verifier::rlimit(100)]
    pub fn get_bishop_moves(&self, color: &PieceColor) -> (r: Vec<Move>)
        requires
            self.wf(),
        ensures
            forall|i: int|
                0 <= i < r@.len() ==> pseudo_sound(self@, *color, #[trigger] r@[i]) && r@[i].ep
                    is None && r@[i].castle is None && r@[i].promotion is None,
            r@ == bishop_rows_seq(self@, *color, 21),
    {
        let mut moves: Vec<Move> = Vec::new();
        let mut s: usize = 21;
        while s < 99
            invariant
                self.wf(),
                21 <= s <= 99,
                moves@ + bishop_rows_seq(self@, *color, s as int) == bishop_rows_seq(self@, *color, 21),
                forall|i: int|
                    0 <= i < moves@.len() ==> pseudo_sound(self@, *color, #[trigger] moves@[i])
                        && moves@[i].ep is None && moves@[i].castle is None && moves@[i].promotion
                        is None,
            decreases 99 - s,
        {
            let ghost moves0 = moves@;
            match self.fields[s] {
                Some(p) => {
                    let slider = match p.piece_type {
                        PieceType::Bishop => true,
                        PieceType::Queen => true,
                        _ => false,
                    };
                    if slider && p.piece_color == *color {
                        self.slide_from(&mut moves, s, 11, *color);
                        self.slide_from(&mut moves, s, 9, *color);
                        self.slide_from(&mut moves, s, -11, *color);
                        self.slide_from(&mut moves, s, -9, *color);
                    }
                },
                None => {},
            }
            proof {
                assert(moves@ =~= moves0 + (if bishop_or_queen_at(self@, *color, s as int) {
                    slider_cell_seq(self@, s as int, *color, false)
                } else {
                    Seq::<Move>::empty()
                }));
                assert(moves@ + bishop_rows_seq(self@, *color, s as int + 1) =~= bishop_rows_seq(
                    self@,
                    *color,
                    21,
                ));
            }
            s = s + 1;
        }
        proof {
            assert(moves@ =~= bishop_rows_seq(self@, *color, 21));
        }
        moves
    }

    /// One half of the stepping offsets of `knight_from`.
    #[verifier::rlimit(100)]
    fn knight_from_a(&self, moves: &mut Vec<Move>, s: usize, c: PieceColor)
        requires
            self.wf(),
            21 <= s < 99,
        ensures
            final(moves)@.len() >= old(moves)@.len(),
            forall|i: int|
                0 <= i < old(moves)@.len() ==> final(moves)@[i] == old(moves)@[i],
            forall|i: int|
                old(moves)@.len() <= i < final(moves)@.len() ==> pseudo_sound(
                    self@,
                    c,
                    #[trigger] final(moves)@[i],
                ) && final(moves)@[i].ep is None && final(moves)@[i].castle is None
                    && final(moves)@[i].promotion is None,
            final(moves)@ == old(moves)@ + (if knight_at(self@, c, s as int) {
                step_move_seq(self@, s as int, s as int + (19), c) + step_move_seq(self@, s as int, s as int + (21), c) + step_move_seq(self@, s as int, s as int + (12), c) + step_move_seq(self@, s as int, s as int + (-8), c)
            } else {
                Seq::<Move>::empty()
            }),
    {
        let ghost b0 = moves@;
        let ghost k1 = step_move_seq(self@, s as int, s as int + (19), c);
        let ghost k2 = step_move_seq(self@, s as int, s as int + (21), c);
        let ghost k3 = step_move_seq(self@, s as int, s as int + (12), c);
        let ghost k4 = step_move_seq(self@, s as int, s as int + (-8), c);
        match self.fields[s] {
            Some(p) => {
                let stepper = match p.piece_type {
                    PieceType::Knight => true,
                    _ => false,
                };
                if stepper && p.piece_color == c {
                    let si = s as i32;
                    self.push_step(moves, s, si + (19), c);
                    proof {
                        assert(moves@ =~= b0 + (k1));
                    }
                    self.push_step(moves, s, si + (21), c);
                    proof {
                        assert(moves@ =~= b0 + (k1 + k2));
                    }
                    self.push_step(moves, s, si + (12), c);
                    proof {
                        assert(moves@ =~= b0 + (k1 + k2 + k3));
                    }
                    self.push_step(moves, s, si + (-8), c);
                    proof {
                        assert(moves@ =~= b0 + (k1 + k2 + k3 + k4));
                    }
                }
            },
            None => {},
        }
        proof {
            assert(moves@ =~= old(moves)@ + (if knight_at(self@, c, s as int) {
                step_move_seq(self@, s as int, s as int + (19), c) + step_move_seq(self@, s as int, s as int + (21), c) + step_move_seq(self@, s as int, s as int + (12), c) + step_move_seq(self@, s as int, s as int + (-8), c)
            } else {
                Seq::<Move>::empty()
            }));
        }
    }

    /// One half of the stepping offsets of `knight_from`.
    #[verifier::rlimit(100)]
    fn knight_from_b(&self, moves: &mut Vec<Move>, s: usize, c: PieceColor)
        requires
            self.wf(),
            21 <= s < 99,
        ensures
            final(moves)@.len() >= old(moves)@.len(),
            forall|i: int|
                0 <= i < old(moves)@.len() ==> final(moves)@[i] == old(moves)@[i],
            forall|i: int|
                old(moves)@.len() <= i < final(moves)@.len() ==> pseudo_sound(
                    self@,
                    c,
                    #[trigger] final(moves)@[i],
                ) && final(moves)@[i].ep is None && final(moves)@[i].castle is None
                    && final(moves)@[i].promotion is None,
            final(moves)@ == old(moves)@ + (if knight_at(self@, c, s as int) {
                step_move_seq(self@, s as int, s as int + (-19), c) + step_move_seq(self@, s as int, s as int + (-21), c) + step_move_seq(self@, s as int, s as int + (-12), c) + step_move_seq(self@, s as int, s as int + (8), c)
            } else {
                Seq::<Move>::empty()
            }),
    {
        let ghost b0 = moves@;
        let ghost k1 = step_move_seq(self@, s as int, s as int + (-19), c);
        let ghost k2 = step_move_seq(self@, s as int, s as int + (-21), c);
        let ghost k3 = step_move_seq(self@, s as int, s as int + (-12), c);
        let ghost k4 = step_move_seq(self@, s as int, s as int + (8), c);
        match self.fields[s] {
            Some(p) => {
                let stepper = match p.piece_type {
                    PieceType::Knight => true,
                    _ => false,
                };
                if stepper && p.piece_color == c {
                    let si = s as i32;
                    self.push_step(moves, s, si + (-19), c);
                    proof {
                        assert(moves@ =~= b0 + (k1));
                    }
                    self.push_step(moves, s, si + (-21), c);
                    proof {
                        assert(moves@ =~= b0 + (k1 + k2));
                    }
                    self.push_step(moves, s, si + (-12), c);
                    proof {
                        assert(moves@ =~= b0 + (k1 + k2 + k3));
                    }
                    self.push_step(moves, s, si + (8), c);
                    proof {
                        assert(moves@ =~= b0 + (k1 + k2 + k3 + k4));
                    }
                }
            },
            None => {},
        }
        proof {
            assert(moves@ =~= old(moves)@ + (if knight_at(self@, c, s as int) {
                step_move_seq(self@, s as int, s as int + (-19), c) + step_move_seq(self@, s as int, s as int + (-21), c) + step_move_seq(self@, s as int, s as int + (-12), c) + step_move_seq(self@, s as int, s as int + (8), c)
            } else {
                Seq::<Move>::empty()
            }));
        }
    }

    /// Appends the eight jump moves of a knight of the moving color on
    /// `s`, if one stands there.
    #[verifier::rlimit(100)]
    fn knight_from(&self, moves: &mut Vec<Move>, s: usize, c: PieceColor)
        requires
            self.wf(),
            21 <= s < 99,
        ensures
            final(moves)@.len() >= old(moves)@.len(),
            forall|i: int|
                0 <= i < old(moves)@.len() ==> final(moves)@[i] == old(moves)@[i],
            forall|i: int|
                old(moves)@.len() <= i < final(moves)@.len() ==> pseudo_sound(
                    self@,
                    c,
                    #[trigger] final(moves)@[i],
                ) && final(moves)@[i].ep is None && final(moves)@[i].castle is None
                    && final(moves)@[i].promotion is None,
            final(moves)@ == old(moves)@ + (if knight_at(self@, c, s as int) {
                knight_cell_seq(self@, s as int, c)
            } else {
                Seq::<Move>::empty()
            }),
    {
        self.knight_from_a(moves, s, c);
        self.knight_from_b(moves, s, c);
        proof {
            if knight_at(self@, c, s as int) {
                vstd::seq_lib::lemma_concat_associative(
                    old(moves)@,
                    step_move_seq(self@, s as int, s as int + (19), c) + step_move_seq(self@, s as int, s as int + (21), c) + step_move_seq(self@, s as int, s as int + (12), c) + step_move_seq(self@, s as int, s as int + (-8), c),
                    step_move_seq(self@, s as int, s as int + (-19), c) + step_move_seq(self@, s as int, s as int + (-21), c) + step_move_seq(self@, s as int, s as int + (-12), c) + step_move_seq(self@, s as int, s as int + (8), c),
                );
            } else {
                assert(old(moves)@ + Seq::<Move>::empty() =~= old(moves)@);
            }
        }
    }


    /// One half of the stepping offsets of `king_from`.
    #[verifier::rlimit(100)]
    fn king_from_a(&self, moves: &mut Vec<Move>, s: usize, c: PieceColor)
        requires
            self.wf(),
            21 <= s < 99,
        ensures
            final(moves)@.len() >= old(moves)@.len(),
            forall|i: int|
                0 <= i < old(moves)@.len() ==> final(moves)@[i] == old(moves)@[i],
            forall|i: int|
                old(moves)@.len() <= i < final(moves)@.len() ==> pseudo_sound(
                    self@,
                    c,
                    #[trigger] final(moves)@[i],
                ) && final(moves)@[i].ep is None && final(moves)@[i].castle is None
                    && final(moves)@[i].promotion is None,
            final(moves)@ == old(moves)@ + (if king_at(self@, c, s as int) {
                step_move_seq(self@, s as int, s as int + (10), c) + step_move_seq(self@, s as int, s as int + (11), c) + step_move_seq(self@, s as int, s as int + (1), c) + step_move_seq(self@, s as int, s as int + (-9), c)
            } else {
                Seq::<Move>::empty()
            }),
    {
        let ghost b0 = moves@;
        let ghost k1 = step_move_seq(self@, s as int, s as int + (10), c);
        let ghost k2 = step_move_seq(self@, s as int, s as int + (11), c);
        let ghost k3 = step_move_seq(self@, s as int, s as int + (1), c);
        let ghost k4 = step_move_seq(self@, s as int, s as int + (-9), c);
        match self.fields[s] {
            Some(p) => {
                let stepper = match p.piece_type {
                    PieceType::King(_) => true,
                    _ => false,
                };
                if stepper && p.piece_color == c {
                    let si = s as i32;
                    self.push_step(moves, s, si + (10), c);
                    proof {
                        assert(moves@ =~= b0 + (k1));
                    }
                    self.push_step(moves, s, si + (11), c);
                    proof {
                        assert(moves@ =~= b0 + (k1 + k2));
                    }
                    self.push_step(moves, s, si + (1), c);
                    proof {
                        assert(moves@ =~= b0 + (k1 + k2 + k3));
                    }
                    self.push_step(moves, s, si + (-9), c);
                    proof {
                        assert(moves@ =~= b0 + (k1 + k2 + k3 + k4));
                    }
                }
            },
            None => {},
        }
        proof {
            assert(moves@ =~= old(moves)@ + (if king_at(self@, c, s as int) {
                step_move_seq(self@, s as int, s as int + (10), c) + step_move_seq(self@, s as int, s as int + (11), c) + step_move_seq(self@, s as int, s as int + (1), c) + step_move_seq(self@, s as int, s as int + (-9), c)
            } else {
                Seq::<Move>::empty()
            }));
        }
    }

    /// One half of the stepping offsets of `king_from`.
    #[verifier::rlimit(100)]
    fn king_from_b(&self, moves: &mut Vec<Move>, s: usize, c: PieceColor)
        requires
            self.wf(),
            21 <= s < 99,
        ensures
            final(moves)@.len() >= old(moves)@.len(),
            forall|i: int|
                0 <= i < old(moves)@.len() ==> final(moves)@[i] == old(moves)@[i],
            forall|i: int|
                old(moves)@.len() <= i < final(moves)@.len() ==> pseudo_sound(
                    self@,
                    c,
                    #[trigger] final(moves)@[i],
                ) && final(moves)@[i].ep is None && final(moves)@[i].castle is None
                    && final(moves)@[i].promotion is None,
            final(moves)@ == old(moves)@ + (if king_at(self@, c, s as int) {
                step_move_seq(self@, s as int, s as int + (-10), c) + step_move_seq(self@, s as int, s as int + (-11), c) + step_move_seq(self@, s as int, s as int + (-1), c) + step_move_seq(self@, s as int, s as int + (9), c)
            } else {
                Seq::<Move>::empty()
            }),
    {
        let ghost b0 = moves@;
        let ghost k1 = step_move_seq(self@, s as int, s as int + (-10), c);
        let ghost k2 = step_move_seq(self@, s as int, s as int + (-11), c);
        let ghost k3 = step_move_seq(self@, s as int, s as int + (-1), c);
        let ghost k4 = step_move_seq(self@, s as int, s as int + (9), c);
        match self.fields[s] {
            Some(p) => {
                let stepper = match p.piece_type {
                    PieceType::King(_) => true,
                    _ => false,
                };
                if stepper && p.piece_color == c {
                    let si = s as i32;
                    self.push_step(moves, s, si + (-10), c);
                    proof {
                        assert(moves@ =~= b0 + (k1));
                    }
                    self.push_step(moves, s, si + (-11), c);
                    proof {
                        assert(moves@ =~= b0 + (k1 + k2));
                    }
                    self.push_step(moves, s, si + (-1), c);
                    proof {
                        assert(moves@ =~= b0 + (k1 + k2 + k3));
                    }
                    self.push_step(moves, s, si + (9), c);
                    proof {
                        assert(moves@ =~= b0 + (k1 + k2 + k3 + k4));
                    }
                }
            },
            None => {},
        }
        proof {
            assert(moves@ =~= old(moves)@ + (if king_at(self@, c, s as int) {
                step_move_seq(self@, s as int, s as int + (-10), c) + step_move_seq(self@, s as int, s as int + (-11), c) + step_move_seq(self@, s as int, s as int + (-1), c) + step_move_seq(self@, s as int, s as int + (9), c)
            } else {
                Seq::<Move>::empty()
            }));
        }
    }

    /// Appends the eight step moves of a king of the moving color on `s`,
    /// if one stands there.
    #[verifier::rlimit(100)]
    fn king_from(&self, moves: &mut Vec<Move>, s: usize, c: PieceColor)
        requires
            self.wf(),
            21 <= s < 99,
        ensures
            final(moves)@.len() >= old(moves)@.len(),
            forall|i: int|
                0 <= i < old(moves)@.len() ==> final(moves)@[i] == old(moves)@[i],
            forall|i: int|
                old(moves)@.len() <= i < final(moves)@.len() ==> pseudo_sound(
                    self@,
                    c,
                    #[trigger] final(moves)@[i],
                ) && final(moves)@[i].ep is None && final(moves)@[i].castle is None
                    && final(moves)@[i].promotion is None,
            final(moves)@ == old(moves)@ + (if king_at(self@, c, s as int) {
                king_cell_seq(self@, s as int, c)
            } else {
                Seq::<Move>::empty()
            }),
    {
        self.king_from_a(moves, s, c);
        self.king_from_b(moves, s, c);
        proof {
            if king_at(self@, c, s as int) {
                vstd::seq_lib::lemma_concat_associative(
                    old(moves)@,
                    step_move_seq(self@, s as int, s as int + (10), c) + step_move_seq(self@, s as int, s as int + (11), c) + step_move_seq(self@, s as int, s as int + (1), c) + step_move_seq(self@, s as int, s as int + (-9), c),
                    step_move_seq(self@, s as int, s as int + (-10), c) + step_move_seq(self@, s as int, s as int + (-11), c) + step_move_seq(self@, s as int, s as int + (-1), c) + step_move_seq(self@, s as int, s as int + (9), c),
                );
            } else {
                assert(old(moves)@ + Seq::<Move>::empty() =~= old(moves)@);
            }
        }
    }


    /// All pseudo-legal knight moves of the given color: the eight fixed
    /// jump offsets from every knight.
    #[verifier::rlimit(100)]
    pub fn get_knight_moves(&self, color: &PieceColor) -> (r: Vec<Move>)
        requires
            self.wf(),
        ensures
            forall|i: int|
                0 <= i < r@.len() ==> pseudo_sound(self@, *color, #[trigger] r@[i]) && r@[i].ep
                    is None && r@[i].castle is None && r@[i].promotion is None,
            r@ == knight_rows_seq(self@, *color, 21),
    {
        let mut moves: Vec<Move> = Vec::new();
        let mut s: usize = 21;
        while s < 99
            invariant
                self.wf(),
                21 <= s <= 99,
                moves@ + knight_rows_seq(self@, *color, s as int) == knight_rows_seq(
                    self@,
                    *color,
                    21,
                ),
                forall|i: int|
                    0 <= i < moves@.len() ==> pseudo_sound(self@, *color, #[trigger] moves@[i])
                        && moves@[i].ep is None && moves@[i].castle is None && moves@[i].promotion
                        is None,
            decreases 99 - s,
        {
            self.knight_from(&mut moves, s, *color);
            proof {
                assert(moves@ + knight_rows_seq(self@, *color, s as int + 1) =~= knight_rows_seq(
                    self@,
                    *color,
                    21,
                ));
            }
            s = s + 1;
        }
        proof {
            assert(moves@ =~= knight_rows_seq(self@, *color, 21));
        }
        moves
    }
    /// All pseudo-legal king moves of the given color: the eight adjacent
    /// cells from every king, and the two castles whenever their
    /// precondition holds; the castle precondition tests no check
    /// condition, which the legality filter enforces on the resulting
    /// position.
    #[verifier::rlimit(100)]
    pub fn get_king_moves(&self, color: &PieceColor) -> (r: Vec<Move>)
        requires
            self.wf(),
        ensures
            forall|i: int|
                0 <= i < r@.len() ==> pseudo_sound(self@, *color, #[trigger] r@[i]) && r@[i].ep
                    is None && r@[i].promotion is None,
            forall|sp: int|
                #[trigger] castle_pre(self@, *color, sp, true) ==> exists|i: int|
                    0 <= i < r@.len() && r@[i] == castle_move_spec(self@, sp, true),
            forall|sp: int|
                #[trigger] castle_pre(self@, *color, sp, false) ==> exists|i: int|
                    0 <= i < r@.len() && r@[i] == castle_move_spec(self@, sp, false),
            r@ == king_rows_seq(self@, *color, 21) + castle_rows_seq(self@, *color, 21),
    {
        let mut moves: Vec<Move> = Vec::new();
        let mut s: usize = 21;
        while s < 99
            invariant
                self.wf(),
                21 <= s <= 99,
                moves@ + king_rows_seq(self@, *color, s as int) == king_rows_seq(
                    self@,
                    *color,
                    21,
                ),
                forall|i: int|
                    0 <= i < moves@.len() ==> pseudo_sound(self@, *color, #[trigger] moves@[i])
                        && moves@[i].ep is None && moves@[i].promotion is None,
            decreases 99 - s,
        {
            self.king_from(&mut moves, s, *color);
            proof {
                assert(moves@ + king_rows_seq(self@, *color, s as int + 1) =~= king_rows_seq(
                    self@,
                    *color,
                    21,
                ));
            }
            s = s + 1;
        }
        let mut s: usize = 21;
        while s < 99
            invariant
                self.wf(),
                21 <= s <= 99,
                moves@ + castle_rows_seq(self@, *color, s as int) == king_rows_seq(
                    self@,
                    *color,
                    21,
                ) + castle_rows_seq(self@, *color, 21),
                forall|i: int|
                    0 <= i < moves@.len() ==> pseudo_sound(self@, *color, #[trigger] moves@[i])
                        && moves@[i].ep is None && moves@[i].promotion is None,
                forall|sp: int|
                    sp < s && #[trigger] castle_pre(self@, *color, sp, true) ==> exists|i: int|
                        0 <= i < moves@.len() && moves@[i] == castle_move_spec(self@, sp, true),
                forall|sp: int|
                    sp < s && #[trigger] castle_pre(self@, *color, sp, false) ==> exists|i: int|
                        0 <= i < moves@.len() && moves@[i] == castle_move_spec(self@, sp, false),
            decreases 99 - s,
        {
            let ghost moves0 = moves@;
            self.push_castles(&mut moves, s, *color);
            proof {
                assert(moves@ + castle_rows_seq(self@, *color, s as int + 1) =~= king_rows_seq(
                    self@,
                    *color,
                    21,
                ) + castle_rows_seq(self@, *color, 21));
                assert forall|sp: int|
                    sp < s + 1 && #[trigger] castle_pre(self@, *color, sp, true) implies exists|
                    i: int,
                |
                    0 <= i < moves@.len() && moves@[i] == castle_move_spec(self@, sp, true) by {
                    if sp < s {
                        let i = choose|i: int|
                            0 <= i < moves0.len() && moves0[i] == castle_move_spec(
                                self@,
                                sp,
                                true,
                            );
                        assert(moves@[i] == castle_move_spec(self@, sp, true));
                    }
                }
                assert forall|sp: int|
                    sp < s + 1 && #[trigger] castle_pre(self@, *color, sp, false) implies exists|
                    i: int,
                |
                    0 <= i < moves@.len() && moves@[i] == castle_move_spec(self@, sp, false) by {
                    if sp < s {
                        let i = choose|i: int|
                            0 <= i < moves0.len() && moves0[i] == castle_move_spec(
                                self@,
                                sp,
                                false,
                            );
                        assert(moves@[i] == castle_move_spec(self@, sp, false));
                    }
                }
            }
            s = s + 1;
        }
        proof {
            assert(moves@ =~= king_rows_seq(self@, *color, 21) + castle_rows_seq(
                self@,
                *color,
                21,
            ));
        }
        moves
    }
}

impl Board {
    /// All pseudo-legal moves of the given color: the union of the pawn,
    /// knight, bishop, rook-and-queen and king generators. Ordering is not
    /// a contract; every move satisfies the generation predicates, and the
    /// en-passant and castle moves are present whenever their
    /// preconditions hold.
    pub fn get_pv_moves(&self, color: &PieceColor, log: &Vec<Move>) -> (r: Vec<Move>)
        requires
            self.wf(),
            log@.len() > 0 ==> move_wf(log@.last()),
        ensures
            forall|i: int|
                0 <= i < r@.len() ==> pseudo_sound(self@, *color, #[trigger] r@[i]) && ep_sound(
                    log@,
                    *color,
                    r@[i],
                ),
            forall|sp: int|
                #[trigger] ep_pre(self@, log@, *color, sp, true) ==> exists|i: int|
                    0 <= i < r@.len() && r@[i] == ep_move_spec(self@, log@, *color, sp, true),
            forall|sp: int|
                #[trigger] ep_pre(self@, log@, *color, sp, false) ==> exists|i: int|
                    0 <= i < r@.len() && r@[i] == ep_move_spec(self@, log@, *color, sp, false),
            forall|sp: int|
                #[trigger] castle_pre(self@, *color, sp, true) ==> exists|i: int|
                    0 <= i < r@.len() && r@[i] == castle_move_spec(self@, sp, true),
            forall|sp: int|
                #[trigger] castle_pre(self@, *color, sp, false) ==> exists|i: int|
                    0 <= i < r@.len() && r@[i] == castle_move_spec(self@, sp, false),
            forall|sp: int|
                #[trigger] promo_step_pre(self@, *color, sp) ==> has_all_promotions(
                    r@,
                    promo_step_base(*color, sp),
                    *color,
                ),
            forall|sp: int|
                #[trigger] promo_capture_pre(self@, *color, sp, true) ==> has_all_promotions(
                    r@,
                    promo_capture_base(self@, *color, sp, true),
                    *color,
                ),
            forall|sp: int|
                #[trigger] promo_capture_pre(self@, *color, sp, false) ==> has_all_promotions(
                    r@,
                    promo_capture_base(self@, *color, sp, false),
                    *color,
                ),
            r@ == pv_seq(self@, log@, *color),
    {
        let mut vec: Vec<Move> = Vec::new();
        let mut pawn = self.get_pawn_moves(color, log);
        let ghost pawn_seq = pawn@;
        vec.append(&mut pawn);
        let mut kn = self.get_knight_moves(color);
        vec.append(&mut kn);
        let mut bi = self.get_bishop_moves(color);
        vec.append(&mut bi);
        let mut rk = self.get_rook_moves(color);
        vec.append(&mut rk);
        let ghost pre_king_len = vec@.len() as int;
        let mut kg = self.get_king_moves(color);
        let ghost king_seq = kg@;
        vec.append(&mut kg);
        proof {
            vstd::seq_lib::lemma_concat_associative(
                pawn_rows_seq(self@, log@, *color, 21) + knight_rows_seq(self@, *color, 21)
                    + bishop_rows_seq(self@, *color, 21) + rook_rows_seq(self@, *color, 21),
                king_rows_seq(self@, *color, 21),
                castle_rows_seq(self@, *color, 21),
            );
            assert(vec@ =~= pv_seq(self@, log@, *color));
            assert forall|i: int| 0 <= i < pawn_seq.len() implies vec@[i] == pawn_seq[i] by {}
            assert forall|i: int|
                0 <= i < king_seq.len() implies vec@[pre_king_len + i] == king_seq[i] by {}
            assert forall|sp: int| #[trigger] ep_pre(self@, log@, *color, sp, true) implies exists|
                i: int,
            |
                0 <= i < vec@.len() && vec@[i] == ep_move_spec(self@, log@, *color, sp, true) by {
                let i = choose|i: int|
                    0 <= i < pawn_seq.len() && pawn_seq[i] == ep_move_spec(
                        self@,
                        log@,
                        *color,
                        sp,
                        true,
                    );
                assert(vec@[i] == ep_move_spec(self@, log@, *color, sp, true));
            }
            assert forall|sp: int| #[trigger] ep_pre(self@, log@, *color, sp, false) implies exists|
                i: int,
            |
                0 <= i < vec@.len() && vec@[i] == ep_move_spec(self@, log@, *color, sp, false) by {
                let i = choose|i: int|
                    0 <= i < pawn_seq.len() && pawn_seq[i] == ep_move_spec(
                        self@,
                        log@,
                        *color,
                        sp,
                        false,
                    );
                assert(vec@[i] == ep_move_spec(self@, log@, *color, sp, false));
            }
            assert forall|sp: int| #[trigger] castle_pre(self@, *color, sp, true) implies exists|
                i: int,
            |
                0 <= i < vec@.len() && vec@[i] == castle_move_spec(self@, sp, true) by {
                let i = choose|i: int|
                    0 <= i < king_seq.len() && king_seq[i] == castle_move_spec(self@, sp, true);
                assert(vec@[pre_king_len + i] == castle_move_spec(self@, sp, true));
            }
            assert forall|sp: int| #[trigger] castle_pre(self@, *color, sp, false) implies exists|
                i: int,
            |
                0 <= i < vec@.len() && vec@[i] == castle_move_spec(self@, sp, false) by {
                let i = choose|i: int|
                    0 <= i < king_seq.len() && king_seq[i] == castle_move_spec(self@, sp, false);
                assert(vec@[pre_king_len + i] == castle_move_spec(self@, sp, false));
            }
            assert forall|sp: int|
                #[trigger] promo_step_pre(self@, *color, sp) implies has_all_promotions(
                vec@,
                promo_step_base(*color, sp),
                *color,
            ) by {
                lemma_has_all_promotions_extend(
                    pawn_seq,
                    vec@,
                    promo_step_base(*color, sp),
                    *color,
                );
            }
            assert forall|sp: int|
                #[trigger] promo_capture_pre(self@, *color, sp, true) implies has_all_promotions(
                vec@,
                promo_capture_base(self@, *color, sp, true),
                *color,
            ) by {
                lemma_has_all_promotions_extend(
                    pawn_seq,
                    vec@,
                    promo_capture_base(self@, *color, sp, true),
                    *color,
                );
            }
            assert forall|sp: int|
                #[trigger] promo_capture_pre(self@, *color, sp, false) implies has_all_promotions(
                vec@,
                promo_capture_base(self@, *color, sp, false),
                *color,
            ) by {
                lemma_has_all_promotions_extend(
                    pawn_seq,
                    vec@,
                    promo_capture_base(self@, *color, sp, false),
                    *color,
                );
            }
        }
        vec
    }
}

/// Appends the four promotion variants of `base` in the order queen,
/// knight, bishop, rook.
fn push_promotions(moves: &mut Vec<Move>, base: Move, color: PieceColor)
    ensures
        final(moves)@.len() == old(moves)@.len() + 4,
        forall|i: int| 0 <= i < old(moves)@.len() ==> final(moves)@[i] == old(moves)@[i],
        final(moves)@[old(moves)@.len() as int] == with_promotion(base, color, PieceType::Queen),
        final(moves)@[old(moves)@.len() as int + 1] == with_promotion(base, color, PieceType::Knight),
        final(moves)@[old(moves)@.len() as int + 2] == with_promotion(base, color, PieceType::Bishop),
        final(moves)@[old(moves)@.len() as int + 3] == with_promotion(
            base,
            color,
            PieceType::Rook(true),
        ),
{
    let arr = base.get_promoted_pawn(color);
    moves.push(arr[0]);
    moves.push(arr[1]);
    moves.push(arr[2]);
    moves.push(arr[3]);
}

} // verus!
