//! Legality filtering and exhaustive game-tree enumeration: the make-and-test
//! filter over the pseudo-legal move list, and the perft counter used as the
//! correctness oracle for the generator, filter and apply/undo trio.

use vstd::prelude::*;
use crate::attack::board_valid;
use crate::board::{Board, PieceColor};
use crate::gen::{
    castle_move_spec, castle_pre, ep_move_spec, ep_pre, ep_sound, filter_valid, has_move,
    lemma_has_move_extend, pseudo_sound, pv_seq,
};
use crate::model::{move_wf, other, spec_apply};
use crate::moves::Move;

verus! {

/// A verified element-wise copy of a move list.
fn copy_moves(v: &Vec<Move>) -> (r: Vec<Move>)
    ensures
        r@ == v@,
{
    let n = v.len();
    let mut out: Vec<Move> = Vec::new();
    let mut i: usize = 0;
    while i < n
        invariant
            i <= n,
            n == v@.len(),
            out@.len() == i as int,
            forall|j: int| 0 <= j < i ==> out@[j] == v@[j],
        decreases n - i,
    {
        out.push(v[i]);
        i = i + 1;
    }
    proof {
        assert(out@ =~= v@);
    }
    out
}

/// A count clamped into `u128`, for stating what the saturating perft
/// driver returns.
pub open spec fn sat_u128(n: int) -> u128 {
    if n >= u128::MAX as int {
        u128::MAX
    } else if n >= 0 {
        n as u128
    } else {
        0
    }
}

/// The exhaustive leaf count of the move tree: depth 0 counts one leaf;
/// otherwise every generated move whose resulting position is valid is
/// counted one level down with the side to move flipped.
pub open spec fn spec_perft(b: crate::model::Cells, log: Seq<Move>, c: PieceColor, depth: nat) -> int
    decreases depth, 0int, 0int,
{
    if depth == 0 {
        1
    } else {
        perft_sum(b, log, c, pv_seq(b, log, c), (depth - 1) as nat)
    }
}

/// The sum, over the listed moves, of the leaf counts `sub_depth` levels
/// deep below the valid positions they produce.
pub open spec fn perft_sum(
    b: crate::model::Cells,
    log: Seq<Move>,
    c: PieceColor,
    ms: Seq<Move>,
    sub_depth: nat,
) -> int
    decreases sub_depth, 1int, ms.len(),
{
    if ms.len() == 0 {
        0
    } else {
        perft_sum(b, log, c, ms.drop_last(), sub_depth) + (if board_valid(
            spec_apply(b, ms.last()),
        ) {
            spec_perft(spec_apply(b, ms.last()), log.push(ms.last()), other(c), sub_depth)
        } else {
            0
        })
    }
}

/// Leaf counts are never negative.
pub proof fn lemma_spec_perft_nonneg(b: crate::model::Cells, log: Seq<Move>, c: PieceColor, depth: nat)
    ensures
        spec_perft(b, log, c, depth) >= 0,
    decreases depth, 0int, 0int,
{
    if depth > 0 {
        lemma_perft_sum_nonneg(b, log, c, pv_seq(b, log, c), (depth - 1) as nat);
    }
}

/// Partial leaf sums are never negative.
pub proof fn lemma_perft_sum_nonneg(
    b: crate::model::Cells,
    log: Seq<Move>,
    c: PieceColor,
    ms: Seq<Move>,
    sub_depth: nat,
)
    ensures
        perft_sum(b, log, c, ms, sub_depth) >= 0,
    decreases sub_depth, 1int, ms.len(),
{
    if ms.len() > 0 {
        lemma_perft_sum_nonneg(b, log, c, ms.drop_last(), sub_depth);
        if board_valid(spec_apply(b, ms.last())) {
            lemma_spec_perft_nonneg(
                spec_apply(b, ms.last()),
                log.push(ms.last()),
                other(c),
                sub_depth,
            );
        }
    }
}

impl Board {
    /// The legal moves of the given color: each pseudo-legal candidate is
    /// applied to a scratch copy of the board and kept exactly when the
    /// resulting position passes validation. So no returned move leaves a
    /// king attacked in the position it produces, and the castle and
    /// en-passant moves whose preconditions hold and whose resulting
    /// positions are valid are present.
    pub fn get_v_moves(&self, color: &PieceColor, log: &Vec<Move>) -> (r: Vec<Move>)
        requires
            self.wf(),
            log@.len() > 0 ==> move_wf(log@.last()),
        ensures
            forall|i: int|
                0 <= i < r@.len() ==> pseudo_sound(self@, *color, #[trigger] r@[i]) && ep_sound(
                    log@,
                    *color,
                    r@[i],
                ) && board_valid(spec_apply(self@, r@[i])),
            forall|sp: int|
                #[trigger] castle_pre(self@, *color, sp, true) && board_valid(
                    spec_apply(self@, castle_move_spec(self@, sp, true)),
                ) ==> has_move(r@, castle_move_spec(self@, sp, true)),
            forall|sp: int|
                #[trigger] castle_pre(self@, *color, sp, false) && board_valid(
                    spec_apply(self@, castle_move_spec(self@, sp, false)),
                ) ==> has_move(r@, castle_move_spec(self@, sp, false)),
            forall|sp: int|
                #[trigger] ep_pre(self@, log@, *color, sp, true) && board_valid(
                    spec_apply(self@, ep_move_spec(self@, log@, *color, sp, true)),
                ) ==> has_move(r@, ep_move_spec(self@, log@, *color, sp, true)),
            forall|sp: int|
                #[trigger] ep_pre(self@, log@, *color, sp, false) && board_valid(
                    spec_apply(self@, ep_move_spec(self@, log@, *color, sp, false)),
                ) ==> has_move(r@, ep_move_spec(self@, log@, *color, sp, false)),
            r@ == filter_valid(self@, pv_seq(self@, log@, *color)),
    {
        let pv = self.get_pv_moves(color, log);
        let mut out: Vec<Move> = Vec::new();
        let mut idx: usize = 0;
        proof {
            assert(pv@.take(0) =~= Seq::<Move>::empty());
            assert(out@ =~= filter_valid(self@, pv@.take(0)));
        }
        while idx < pv.len()
            invariant
                self.wf(),
                idx <= pv@.len(),
                pv@ == pv_seq(self@, log@, *color),
                out@ == filter_valid(self@, pv@.take(idx as int)),
                forall|i: int|
                    0 <= i < pv@.len() ==> pseudo_sound(self@, *color, #[trigger] pv@[i])
                        && ep_sound(log@, *color, pv@[i]),
                forall|j: int|
                    0 <= j < out@.len() ==> pseudo_sound(self@, *color, #[trigger] out@[j])
                        && ep_sound(log@, *color, out@[j]) && board_valid(
                        spec_apply(self@, out@[j]),
                    ),
                forall|j: int|
                    0 <= j < idx && board_valid(spec_apply(self@, #[trigger] pv@[j]))
                        ==> has_move(out@, pv@[j]),
            decreases pv@.len() - idx,
        {
            let ghost out0 = out@;
            let m = pv[idx];
            let mut scratch = self.clone();
            let mut scratch_log: Vec<Move> = Vec::new();
            scratch.make_move(&m, &mut scratch_log);
            if scratch.validate() {
                out.push(m);
            }
            proof {
                assert(pv@.take(idx as int + 1).drop_last() =~= pv@.take(idx as int));
                assert(pv@.take(idx as int + 1).last() == pv@[idx as int]);
                assert(out@ =~= filter_valid(self@, pv@.take(idx as int + 1)));
                assert forall|j: int|
                    0 <= j < idx + 1 && board_valid(spec_apply(self@, #[trigger] pv@[j]))
                        implies has_move(out@, pv@[j]) by {
                    if j < idx {
                        lemma_has_move_extend(out0, out@, pv@[j]);
                    } else {
                        assert(out@[out@.len() - 1] == pv@[j]);
                    }
                }
            }
            idx = idx + 1;
        }
        proof {
            assert(pv@.take(pv@.len() as int) =~= pv@);
            assert forall|sp: int|
                #[trigger] castle_pre(self@, *color, sp, true) && board_valid(
                    spec_apply(self@, castle_move_spec(self@, sp, true)),
                ) implies has_move(out@, castle_move_spec(self@, sp, true)) by {
                let i = choose|i: int|
                    0 <= i < pv@.len() && pv@[i] == castle_move_spec(self@, sp, true);
                assert(has_move(out@, pv@[i]));
            }
            assert forall|sp: int|
                #[trigger] castle_pre(self@, *color, sp, false) && board_valid(
                    spec_apply(self@, castle_move_spec(self@, sp, false)),
                ) implies has_move(out@, castle_move_spec(self@, sp, false)) by {
                let i = choose|i: int|
                    0 <= i < pv@.len() && pv@[i] == castle_move_spec(self@, sp, false);
                assert(has_move(out@, pv@[i]));
            }
            assert forall|sp: int|
                #[trigger] ep_pre(self@, log@, *color, sp, true) && board_valid(
                    spec_apply(self@, ep_move_spec(self@, log@, *color, sp, true)),
                ) implies has_move(out@, ep_move_spec(self@, log@, *color, sp, true)) by {
                let i = choose|i: int|
                    0 <= i < pv@.len() && pv@[i] == ep_move_spec(self@, log@, *color, sp, true);
                assert(has_move(out@, pv@[i]));
            }
            assert forall|sp: int|
                #[trigger] ep_pre(self@, log@, *color, sp, false) && board_valid(
                    spec_apply(self@, ep_move_spec(self@, log@, *color, sp, false)),
                ) implies has_move(out@, ep_move_spec(self@, log@, *color, sp, false)) by {
                let i = choose|i: int|
                    0 <= i < pv@.len() && pv@[i] == ep_move_spec(self@, log@, *color, sp, false);
                assert(has_move(out@, pv@[i]));
            }
        }
        out
    }

    /// Exhaustive leaf count of the move tree to the given depth: depth 0
    /// counts the current position as one leaf; otherwise each generated
    /// move is applied to a fresh scratch copy and, when the resulting
    /// position is valid, counted recursively with the side to move
    /// flipped. The count saturates at the integer limit instead of
    /// overflowing.
    pub fn perft(&self, depth: usize, log: &Vec<Move>, color: &PieceColor) -> (r: u128)
        requires
            self.wf(),
            log@.len() > 0 ==> move_wf(log@.last()),
        ensures
            r == sat_u128(spec_perft(self@, log@, *color, depth as nat)),
            depth == 0 ==> r == 1,
        decreases depth,
    {
        if depth == 0 {
            return 1;
        }
        let moves = self.get_pv_moves(color, log);
        let mut nodes: u128 = 0;
        let mut i: usize = 0;
        proof {
            assert(moves@.take(0) =~= Seq::<Move>::empty());
        }
        while i < moves.len()
            invariant
                self.wf(),
                1 <= depth,
                i <= moves@.len(),
                log@.len() > 0 ==> move_wf(log@.last()),
                moves@ == pv_seq(self@, log@, *color),
                forall|j: int|
                    0 <= j < moves@.len() ==> pseudo_sound(self@, *color, #[trigger] moves@[j]),
                nodes == sat_u128(
                    perft_sum(self@, log@, *color, moves@.take(i as int), (depth - 1) as nat),
                ),
            decreases moves@.len() - i,
        {
            let m = moves[i];
            let mut scratch = self.clone();
            let mut scratch_log = copy_moves(log);
            scratch.make_move(&m, &mut scratch_log);
            proof {
                lemma_perft_sum_nonneg(
                    self@,
                    log@,
                    *color,
                    moves@.take(i as int),
                    (depth - 1) as nat,
                );
            }
            if scratch.validate() {
                let next = match *color {
                    PieceColor::White => PieceColor::Black,
                    PieceColor::Black => PieceColor::White,
                };
                let sub = scratch.perft(depth - 1, &scratch_log, &next);
                proof {
                    lemma_spec_perft_nonneg(
                        spec_apply(self@, m),
                        log@.push(m),
                        other(*color),
                        (depth - 1) as nat,
                    );
                }
                nodes = if nodes <= u128::MAX - sub {
                    nodes + sub
                } else {
                    u128::MAX
                };
            }
            proof {
                assert(moves@.take(i as int + 1).drop_last() =~= moves@.take(i as int));
                assert(moves@.take(i as int + 1).last() == moves@[i as int]);
                assert(nodes == sat_u128(
                    perft_sum(self@, log@, *color, moves@.take(i as int + 1), (depth - 1) as nat),
                ));
            }
            i = i + 1;
        }
        proof {
            assert(moves@.take(moves@.len() as int) =~= moves@);
        }
        nodes
    }
}

} // verus!
