//! The move record and the reversible move application engine. A `Move` is a
//! self-describing diff over the board: applying it needs only the board and
//! the log, and undoing it needs only the move record itself.

use vstd::prelude::*;
use crate::board::{Board, Piece, PieceColor, PieceType};
use crate::model::{move_wf, playable, restore_flag, set_moved, spec_apply, spec_undo};

verus! {

/// A move: source and target cell, the captured piece if any, and at most
/// one of a promotion piece, an en-passant capture cell (the cell of the
/// captured pawn, distinct from the target), or a castle record carrying the
/// side (`true` for king side) and the participating rook.
#[derive(Copy, Clone, Debug, PartialEq)]
pub struct Move {
    pub source: usize,
    pub target: usize,
    pub captured: Option<Piece>,
    pub promotion: Option<Piece>,
    pub ep: Option<usize>,
    pub castle: Option<(bool, Piece)>,
}

/// The move with the given promotion kind, all other fields copied.
pub open spec fn with_promotion(m: Move, color: PieceColor, t: PieceType) -> Move {
    Move { promotion: Some(Piece { piece_type: t, piece_color: color }), ..m }
}

impl Move {
    /// The target cell lies on the playable inner 8x8 area.
    pub fn is_on_board(&self) -> (r: bool)
        ensures
            r == playable(self.target as int),
    {
        !(self.target % 10 == 0 || self.target % 10 == 9 || self.target < 20 || self.target > 100)
    }

    /// A plain move record: no promotion, no en passant, no castle.
    pub fn create_move(source: usize, target: usize, captured: Option<Piece>) -> (r: Self)
        ensures
            r == (Move { source, target, captured, promotion: None, ep: None, castle: None }),
    {
        Self { source, target, captured, promotion: None, ep: None, castle: None }
    }

    /// The four promotion variants of a pawn move reaching the farthest
    /// rank, in the order queen, knight, bishop, rook. The rook variant is
    /// created with its movement flag already set: a piece that appears
    /// mid-game is never castle-eligible, and undoing its later moves must
    /// never clear the flag.
    pub fn get_promoted_pawn(&self, color: PieceColor) -> (r: [Move; 4])
        ensures
            r@.len() == 4,
            r@[0] == with_promotion(*self, color, PieceType::Queen),
            r@[1] == with_promotion(*self, color, PieceType::Knight),
            r@[2] == with_promotion(*self, color, PieceType::Bishop),
            r@[3] == with_promotion(*self, color, PieceType::Rook(true)),
    {
        let mut p1 = *self;
        p1.promotion = Some(Piece { piece_type: PieceType::Queen, piece_color: color });
        let mut p2 = *self;
        p2.promotion = Some(Piece { piece_type: PieceType::Knight, piece_color: color });
        let mut p3 = *self;
        p3.promotion = Some(Piece { piece_type: PieceType::Bishop, piece_color: color });
        let mut p4 = *self;
        p4.promotion = Some(Piece { piece_type: PieceType::Rook(true), piece_color: color });
        [p1, p2, p3, p4]
    }
}

/// Sets the movement flag of a pawn, rook or king.
fn bump_piece(p: Piece) -> (r: Piece)
    ensures
        r == set_moved(p),
{
    match p.piece_type {
        PieceType::Pawn(false) => Piece { piece_type: PieceType::Pawn(true), ..p },
        PieceType::Rook(false) => Piece { piece_type: PieceType::Rook(true), ..p },
        PieceType::King(false) => Piece { piece_type: PieceType::King(true), ..p },
        _ => p,
    }
}

/// Clears the movement flag of a flagged pawn, rook or king carried back
/// onto its starting rank, detecting a first move by that rank.
fn restore_piece(p: Piece, src: usize) -> (r: Piece)
    ensures
        Some(r) == restore_flag(Some(p), src as int),
{
    let home = match p.piece_type {
        PieceType::Pawn(_) => match p.piece_color {
            PieceColor::White => 31 <= src && src <= 38,
            PieceColor::Black => 81 <= src && src <= 88,
        },
        PieceType::Rook(_) => match p.piece_color {
            PieceColor::White => 21 <= src && src <= 28,
            PieceColor::Black => 91 <= src && src <= 98,
        },
        PieceType::King(_) => match p.piece_color {
            PieceColor::White => 21 <= src && src <= 28,
            PieceColor::Black => 91 <= src && src <= 98,
        },
        _ => false,
    };
    if home {
        match p.piece_type {
            PieceType::Pawn(true) => Piece { piece_type: PieceType::Pawn(false), ..p },
            PieceType::Rook(true) => Piece { piece_type: PieceType::Rook(false), ..p },
            PieceType::King(true) => Piece { piece_type: PieceType::King(false), ..p },
            _ => p,
        }
    } else {
        p
    }
}

impl Board {
    /// Applies a move to the board and appends it to the log. The four
    /// branches are keyed, in priority order, by the populated optional
    /// field: promotion, en passant, castle, and otherwise a plain move
    /// that also marks an unmoved pawn, rook or king as moved.
    pub fn make_move(&mut self, mv: &Move, log: &mut Vec<Move>)
        requires
            old(self).wf(),
            move_wf(*mv),
        ensures
            final(self)@ == spec_apply(old(self)@, *mv),
            final(self).wf(),
            final(log)@ == old(log)@.push(*mv),
    {
        let m = *mv;
        if m.promotion.is_some() {
            self.fields.set(m.source, None);
            self.fields.set(m.target, m.promotion);
        } else if let Some(pos) = m.ep {
            self.fields.set(pos, None);
            let moving = self.fields[m.source];
            self.fields.set(m.target, moving);
            self.fields.set(m.source, None);
        } else if let Some((king_side, rook)) = m.castle {
            let moving = self.fields[m.source];
            self.fields.set(m.target, moving);
            self.fields.set(m.source, None);
            if king_side {
                self.fields.set(m.source + 1, Some(rook));
                self.fields.set(m.source + 3, None);
            } else {
                self.fields.set(m.source - 1, Some(rook));
                self.fields.set(m.source - 4, None);
            }
        } else {
            let cur = self.fields[m.source];
            let flipped = match cur {
                Some(p) => Some(bump_piece(p)),
                None => None,
            };
            self.fields.set(m.source, flipped);
            let moving = self.fields[m.source];
            self.fields.set(m.target, moving);
            self.fields.set(m.source, None);
        }
        log.push(m);
    }

    /// Undoes the most recent move of the log, inverting exactly the branch
    /// that applying it took, and pops the log. On an empty log it changes
    /// nothing and reports the failure instead of panicking.
    pub fn undo_move(&mut self, log: &mut Vec<Move>) -> (r: bool)
        requires
            old(self).wf(),
            old(log)@.len() > 0 ==> move_wf(old(log)@.last()),
        ensures
            r == (old(log)@.len() > 0),
            !r ==> final(self)@ == old(self)@ && final(log)@ == old(log)@,
            r ==> final(self)@ == spec_undo(old(self)@, old(log)@.last()),
            r ==> final(log)@ == old(log)@.drop_last(),
            final(self).wf(),
    {
        let m = match log.pop() {
            Some(mm) => mm,
            None => {
                return false;
            },
        };
        if let Some(pr) = m.promotion {
            self.fields.set(
                m.source,
                Some(Piece { piece_type: PieceType::Pawn(true), piece_color: pr.piece_color }),
            );
            self.fields.set(m.target, m.captured);
        } else if let Some(pos) = m.ep {
            self.fields.set(pos, m.captured);
            let moving = self.fields[m.target];
            self.fields.set(m.source, moving);
            self.fields.set(m.target, None);
        } else if let Some((king_side, rook)) = m.castle {
            let moving = self.fields[m.target];
            self.fields.set(m.source, moving);
            self.fields.set(m.target, None);
            if king_side {
                self.fields.set(m.source + 3, Some(rook));
                self.fields.set(m.source + 1, None);
            } else {
                self.fields.set(m.source - 4, Some(rook));
                self.fields.set(m.source - 1, None);
            }
        } else {
            let restored = match self.fields[m.target] {
                Some(p) => Some(restore_piece(p, m.source)),
                None => None,
            };
            self.fields.set(m.source, restored);
            self.fields.set(m.target, m.captured);
        }
        true
    }
}

} // verus!
