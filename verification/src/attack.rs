//! Check detection: whether a king is attacked, probed from the king
//! outward with the same ray and step geometry as move generation, and the
//! board-validity predicate built on it.

use vstd::prelude::*;
use crate::board::{Board, Piece, PieceColor, PieceType};
use crate::model::{is_king, other, playable, Cells};

verus! {

/// The attacker kinds that can arrive along a ray: rooks and queens on
/// rank-and-file rays, bishops and queens on diagonal rays.
pub open spec fn slider_kind(t: PieceType, ortho: bool) -> bool {
    if ortho {
        t == PieceType::Queen || t == PieceType::Rook(false) || t == PieceType::Rook(true)
    } else {
        t == PieceType::Queen || t == PieceType::Bishop
    }
}

/// Walking a ray from `sq` in direction `d`: an attack is found when the
/// first occupied cell holds a slider of color `c` fitting the ray class;
/// any other piece, or stepping off the playable area, ends the walk. The
/// fuel bounds the walk at 8 cells, which on the 8-wide playable area is
/// every cell a ray can reach.
pub open spec fn ray_attack_n(
    b: Cells,
    sq: int,
    d: int,
    c: PieceColor,
    ortho: bool,
    fuel: nat,
) -> bool
    decreases fuel,
{
    if fuel == 0 {
        false
    } else if !playable(sq) {
        false
    } else {
        match b[sq] {
            Some(q) => q.piece_color == c && slider_kind(q.piece_type, ortho),
            None => ray_attack_n(b, sq + d, d, c, ortho, (fuel - 1) as nat),
        }
    }
}

/// A slider of color `c` attacks cell `k` along direction `d`.
pub open spec fn ray_attack(b: Cells, k: int, d: int, c: PieceColor, ortho: bool) -> bool {
    ray_attack_n(b, k + d, d, c, ortho, 8)
}

/// A piece of color `c` and kind `t` stands on the playable cell `sq`.
pub open spec fn piece_on(b: Cells, sq: int, c: PieceColor, t: PieceType) -> bool {
    playable(sq) && b[sq] == Some(Piece { piece_type: t, piece_color: c })
}

/// A knight of color `c` gives check to cell `k`.
pub open spec fn knight_attack(b: Cells, k: int, c: PieceColor) -> bool {
    ||| piece_on(b, k + 19, c, PieceType::Knight)
    ||| piece_on(b, k + 21, c, PieceType::Knight)
    ||| piece_on(b, k + 12, c, PieceType::Knight)
    ||| piece_on(b, k - 8, c, PieceType::Knight)
    ||| piece_on(b, k - 19, c, PieceType::Knight)
    ||| piece_on(b, k - 21, c, PieceType::Knight)
    ||| piece_on(b, k - 12, c, PieceType::Knight)
    ||| piece_on(b, k + 8, c, PieceType::Knight)
}

/// A pawn of color `c` stands on the playable cell `sq`, whichever its
/// movement flag.
pub open spec fn pawn_on(b: Cells, sq: int, c: PieceColor) -> bool {
    ||| piece_on(b, sq, c, PieceType::Pawn(false))
    ||| piece_on(b, sq, c, PieceType::Pawn(true))
}

/// A pawn of color `c` gives check to cell `k`: it stands one rank behind
/// `k` in its own walking direction, one file to either side.
pub open spec fn pawn_attack(b: Cells, k: int, c: PieceColor) -> bool {
    let back = if c == PieceColor::White { -10 } else { 10 };
    ||| pawn_on(b, k + back + 1, c)
    ||| pawn_on(b, k + back - 1, c)
}

/// A king of color `c` stands on the playable cell `sq`, whichever its
/// movement flag.
pub open spec fn king_on(b: Cells, sq: int, c: PieceColor) -> bool {
    ||| piece_on(b, sq, c, PieceType::King(false))
    ||| piece_on(b, sq, c, PieceType::King(true))
}

/// The king of color `c` gives check to cell `k` by adjacency.
pub open spec fn king_attack(b: Cells, k: int, c: PieceColor) -> bool {
    ||| king_on(b, k + 10, c)
    ||| king_on(b, k + 11, c)
    ||| king_on(b, k + 1, c)
    ||| king_on(b, k - 9, c)
    ||| king_on(b, k - 10, c)
    ||| king_on(b, k - 11, c)
    ||| king_on(b, k - 1, c)
    ||| king_on(b, k + 9, c)
}

/// Some piece of color `c` attacks cell `k`.
pub open spec fn square_attacked(b: Cells, k: int, c: PieceColor) -> bool {
    ||| ray_attack(b, k, 10, c, true)
    ||| ray_attack(b, k, 1, c, true)
    ||| ray_attack(b, k, -10, c, true)
    ||| ray_attack(b, k, -1, c, true)
    ||| ray_attack(b, k, 11, c, false)
    ||| ray_attack(b, k, 9, c, false)
    ||| ray_attack(b, k, -11, c, false)
    ||| ray_attack(b, k, -9, c, false)
    ||| knight_attack(b, k, c)
    ||| pawn_attack(b, k, c)
    ||| king_attack(b, k, c)
}

/// No king on the board is attacked by the opposing color.
pub open spec fn board_valid(b: Cells) -> bool {
    forall|k: int| 0 <= k < 120 ==> match #[trigger] b[k] {
        Some(p) => is_king(p.piece_type) ==> !square_attacked(b, k, other(p.piece_color)),
        None => true,
    }
}

/// The cell index lies on the playable area; callers pass cell arithmetic
/// through `i32` so that stepping below zero is harmless.
pub(crate) fn on_board_i(sq: i32) -> (r: bool)
    ensures
        r == playable(sq as int),
{
    21 <= sq && sq <= 98 && sq % 10 != 0 && sq % 10 != 9
}

impl Board {
    /// Walks one ray outward from `k` and reports whether a slider of color
    /// `c` fitting the ray class attacks `k` along it.
    fn ray_attacks(&self, k: usize, d: i32, c: PieceColor, ortho: bool) -> (r: bool)
        requires
            self.wf(),
            playable(k as int),
            -11 <= d <= 11,
            d != 0,
        ensures
            r == ray_attack(self@, k as int, d as int, c, ortho),
    {
        let mut cur: i32 = k as i32 + d;
        let mut fuel: u8 = 8;
        while fuel > 0
            invariant
                self.wf(),
                -11 <= d <= 11,
                -100 <= cur <= 220,
                fuel <= 8,
                ray_attack(self@, k as int, d as int, c, ortho) == ray_attack_n(
                    self@,
                    cur as int,
                    d as int,
                    c,
                    ortho,
                    fuel as nat,
                ),
            decreases fuel,
        {
            if !on_board_i(cur) {
                return false;
            }
            let sq = cur as usize;
            match self.fields[sq] {
                Some(q) => {
                    let kind_ok = if ortho {
                        match q.piece_type {
                            PieceType::Queen => true,
                            PieceType::Rook(_) => true,
                            _ => false,
                        }
                    } else {
                        match q.piece_type {
                            PieceType::Queen => true,
                            PieceType::Bishop => true,
                            _ => false,
                        }
                    };
                    return q.piece_color == c && kind_ok;
                },
                None => {
                    cur = cur + d;
                    fuel = fuel - 1;
                },
            }
        }
        false
    }

    /// Reports whether a piece of the given kind and color stands on the
    /// cell `sq`, which may lie off the playable area.
    fn kind_probe(&self, sq: i32, c: PieceColor, knight: bool) -> (r: bool)
        requires
            self.wf(),
        ensures
            knight ==> r == piece_on(self@, sq as int, c, PieceType::Knight),
            !knight ==> r == king_on(self@, sq as int, c),
    {
        if !on_board_i(sq) {
            return false;
        }
        let i = sq as usize;
        match self.fields[i] {
            Some(q) => q.piece_color == c && (if knight {
                match q.piece_type {
                    PieceType::Knight => true,
                    _ => false,
                }
            } else {
                match q.piece_type {
                    PieceType::King(_) => true,
                    _ => false,
                }
            }),
            None => false,
        }
    }

    /// Reports whether a pawn of color `c` stands on the cell `sq`.
    fn pawn_probe(&self, sq: i32, c: PieceColor) -> (r: bool)
        requires
            self.wf(),
        ensures
            r == pawn_on(self@, sq as int, c),
    {
        if !on_board_i(sq) {
            return false;
        }
        let i = sq as usize;
        match self.fields[i] {
            Some(q) => q.piece_color == c && (match q.piece_type {
                PieceType::Pawn(_) => true,
                _ => false,
            }),
            None => false,
        }
    }

    /// Reports whether any piece of color `c` attacks cell `k`, probing
    /// rook rays, bishop rays, knight cells, the two pawn cells and the
    /// adjacent ring.
    fn is_square_attacked(&self, k: usize, c: PieceColor) -> (r: bool)
        requires
            self.wf(),
            playable(k as int),
        ensures
            r == square_attacked(self@, k as int, c),
    {
        let ki = k as i32;
        if self.ray_attacks(k, 10, c, true) {
            return true;
        }
        if self.ray_attacks(k, 1, c, true) {
            return true;
        }
        if self.ray_attacks(k, -10, c, true) {
            return true;
        }
        if self.ray_attacks(k, -1, c, true) {
            return true;
        }
        if self.ray_attacks(k, 11, c, false) {
            return true;
        }
        if self.ray_attacks(k, 9, c, false) {
            return true;
        }
        if self.ray_attacks(k, -11, c, false) {
            return true;
        }
        if self.ray_attacks(k, -9, c, false) {
            return true;
        }
        if self.kind_probe(ki + 19, c, true) || self.kind_probe(ki + 21, c, true)
            || self.kind_probe(ki + 12, c, true) || self.kind_probe(ki - 8, c, true)
            || self.kind_probe(ki - 19, c, true) || self.kind_probe(ki - 21, c, true)
            || self.kind_probe(ki - 12, c, true) || self.kind_probe(ki + 8, c, true) {
            return true;
        }
        let back: i32 = match c {
            PieceColor::White => -10,
            PieceColor::Black => 10,
        };
        if self.pawn_probe(ki + back + 1, c) || self.pawn_probe(ki + back - 1, c) {
            return true;
        }
        if self.kind_probe(ki + 10, c, false) || self.kind_probe(ki + 11, c, false)
            || self.kind_probe(ki + 1, c, false) || self.kind_probe(ki - 9, c, false)
            || self.kind_probe(ki - 10, c, false) || self.kind_probe(ki - 11, c, false)
            || self.kind_probe(ki - 1, c, false) || self.kind_probe(ki + 9, c, false) {
            return true;
        }
        false
    }

    /// Reports whether the position is valid: no king of either color is
    /// attacked. Callers that just applied a speculative move read the
    /// result for the side that moved.
    pub fn validate(&self) -> (r: bool)
        requires
            self.wf(),
        ensures
            r == board_valid(self@),
    {
        proof {
            assert forall|j: int| 0 <= j < 21 implies #[trigger] self@[j] is None by {
                assert(!playable(j));
            }
        }
        let mut k: usize = 21;
        while k < 99
            invariant
                self.wf(),
                21 <= k <= 99,
                forall|j: int| 0 <= j < k ==> match #[trigger] self@[j] {
                    Some(p) => is_king(p.piece_type) ==> !square_attacked(
                        self@,
                        j,
                        other(p.piece_color),
                    ),
                    None => true,
                },
            decreases 99 - k,
        {
            let here = self.fields[k];
            match here {
                Some(p) => {
                    let kingly = match p.piece_type {
                        PieceType::King(_) => true,
                        _ => false,
                    };
                    if kingly {
                        let enemy = match p.piece_color {
                            PieceColor::White => PieceColor::Black,
                            PieceColor::Black => PieceColor::White,
                        };
                        if self.is_square_attacked(k, enemy) {
                            return false;
                        }
                    }
                },
                None => {},
            }
            k = k + 1;
        }
        proof {
            assert forall|j: int| 99 <= j < 120 implies #[trigger] self@[j] is None by {
                assert(!playable(j));
            }
        }
        true
    }
}

} // verus!
