//! Piece and board model: colors, piece kinds with their movement-history
//! flag, the padded 10x12 board, and the deterministic initial position.

use vstd::prelude::*;
use vstd::string::StrSliceExecFns;
use crate::model::{board_ok, init_cell, initial_cells, Cells};

verus! {

/// Width of the padded board: 8 playable files plus one sentinel file on
/// either side.
pub const COLUMNS: usize = 10;

/// Height of the padded board: 8 playable ranks plus two sentinel ranks above
/// and below.
pub const ROWS: usize = 12;

/// Number of cells of the padded board.
pub const SIZE: usize = COLUMNS * ROWS;

/// A piece kind. `Pawn`, `Rook` and `King` carry a flag that is `true` once
/// the piece has moved; it is the sole carrier of double-step and castling
/// eligibility.
#[derive(Debug, Clone, Copy, PartialEq, Eq, Structural)]
pub enum PieceType {
    Pawn(bool),
    Queen,
    Rook(bool),
    Bishop,
    Knight,
    King(bool),
}

/// The two sides.
#[derive(Debug, Clone, Copy, PartialEq, Eq, Structural)]
pub enum PieceColor {
    Black,
    White,
}

/// An immutable piece value: a kind together with a color.
#[derive(Debug, Clone, Copy, PartialEq, Eq, Structural)]
pub struct Piece {
    pub piece_type: PieceType,
    pub piece_color: PieceColor,
}

/// The piece kind that a constructor name denotes; every unrecognised name
/// falls back to an unmoved pawn.
pub open spec fn spec_kind_of_name(s: Seq<char>) -> PieceType {
    if s == "king"@ {
        PieceType::King(false)
    } else if s == "knight"@ {
        PieceType::Knight
    } else if s == "rook"@ {
        PieceType::Rook(false)
    } else if s == "bishop"@ {
        PieceType::Bishop
    } else if s == "queen"@ {
        PieceType::Queen
    } else {
        PieceType::Pawn(false)
    }
}

/// The display glyph of a piece: the Unicode chess symbols, white pieces as
/// the outline glyphs and black pieces as the filled ones.
pub open spec fn spec_symbol(p: Piece) -> char {
    match p.piece_color {
        PieceColor::White => match p.piece_type {
            PieceType::King(_) => '\u{2654}',
            PieceType::Queen => '\u{2655}',
            PieceType::Rook(_) => '\u{2656}',
            PieceType::Bishop => '\u{2657}',
            PieceType::Knight => '\u{2658}',
            PieceType::Pawn(_) => '\u{2659}',
        },
        PieceColor::Black => match p.piece_type {
            PieceType::King(_) => '\u{265A}',
            PieceType::Queen => '\u{265B}',
            PieceType::Rook(_) => '\u{265C}',
            PieceType::Bishop => '\u{265D}',
            PieceType::Knight => '\u{265E}',
            PieceType::Pawn(_) => '\u{265F}',
        },
    }
}

/// Character-by-character string comparison, so that name lookup can be
/// verified against the character sequences of the two strings.
fn str_eq(a: &str, b: &str) -> (r: bool)
    ensures
        r == (a@ == b@),
{
    let a_len = a.unicode_len();
    let b_len = b.unicode_len();
    if a_len != b_len {
        return false;
    }
    let mut i: usize = 0;
    while i < a_len
        invariant
            i <= a_len,
            a_len == a@.len(),
            a_len == b@.len(),
            forall|j: int| 0 <= j < i ==> a@[j] == b@[j],
        decreases a_len - i,
    {
        if a.get_char(i) != b.get_char(i) {
            return false;
        }
        i = i + 1;
    }
    proof {
        assert(a@ =~= b@);
    }
    true
}

impl Piece {
    /// Builds a piece of the given color from a kind name; any name other
    /// than the five recognised ones yields an unmoved pawn.
    pub fn new(name: &str, color: PieceColor) -> (r: Self)
        ensures
            r.piece_color == color,
            r.piece_type == spec_kind_of_name(name@),
    {
        let piece_type = if str_eq(name, "king") {
            PieceType::King(false)
        } else if str_eq(name, "knight") {
            PieceType::Knight
        } else if str_eq(name, "rook") {
            PieceType::Rook(false)
        } else if str_eq(name, "bishop") {
            PieceType::Bishop
        } else if str_eq(name, "queen") {
            PieceType::Queen
        } else {
            PieceType::Pawn(false)
        };
        Self { piece_color: color, piece_type }
    }

    /// The Unicode chess glyph of this piece.
    pub fn get_symbol(&self) -> (c: char)
        ensures
            c == spec_symbol(*self),
    {
        match self.piece_color {
            PieceColor::White => match self.piece_type {
                PieceType::King(_) => '\u{2654}',
                PieceType::Queen => '\u{2655}',
                PieceType::Rook(_) => '\u{2656}',
                PieceType::Bishop => '\u{2657}',
                PieceType::Knight => '\u{2658}',
                PieceType::Pawn(_) => '\u{2659}',
            },
            PieceColor::Black => match self.piece_type {
                PieceType::King(_) => '\u{265A}',
                PieceType::Queen => '\u{265B}',
                PieceType::Rook(_) => '\u{265C}',
                PieceType::Bishop => '\u{265D}',
                PieceType::Knight => '\u{265E}',
                PieceType::Pawn(_) => '\u{265F}',
            },
        }
    }
}

impl Default for Piece {
    /// The default piece is an unmoved white pawn.
    fn default() -> (r: Self)
        ensures
            r.piece_color == PieceColor::White,
            r.piece_type == PieceType::Pawn(false),
    {
        Self { piece_color: PieceColor::White, piece_type: PieceType::Pawn(false) }
    }
}

/// The board: one optional piece per cell of the padded grid. Only the inner
/// 8x8 area ever holds a piece; the sentinel ring stays empty so that moving
/// off the playable area is detected by a single range-and-column test.
#[derive(Debug, PartialEq)]
pub struct Board {
    pub fields: Vec<Option<Piece>>,
}

impl View for Board {
    type V = Cells;

    open spec fn view(&self) -> Cells {
        self.fields@
    }
}

impl Board {
    /// Well-formedness: 120 cells with an empty sentinel ring.
    pub open spec fn wf(&self) -> bool {
        board_ok(self@)
    }

    /// Builds one cell of the initial position.
    fn initial_piece(i: usize) -> (r: Option<Piece>)
        ensures
            r == init_cell(i as int),
    {
        if i == 21 || i == 28 {
            Some(Piece { piece_type: PieceType::Rook(false), piece_color: PieceColor::White })
        } else if i == 22 || i == 27 {
            Some(Piece { piece_type: PieceType::Knight, piece_color: PieceColor::White })
        } else if i == 23 || i == 26 {
            Some(Piece { piece_type: PieceType::Bishop, piece_color: PieceColor::White })
        } else if i == 24 {
            Some(Piece { piece_type: PieceType::Queen, piece_color: PieceColor::White })
        } else if i == 25 {
            Some(Piece { piece_type: PieceType::King(false), piece_color: PieceColor::White })
        } else if 31 <= i && i <= 38 {
            Some(Piece { piece_type: PieceType::Pawn(false), piece_color: PieceColor::White })
        } else if i == 91 || i == 98 {
            Some(Piece { piece_type: PieceType::Rook(false), piece_color: PieceColor::Black })
        } else if i == 92 || i == 97 {
            Some(Piece { piece_type: PieceType::Knight, piece_color: PieceColor::Black })
        } else if i == 93 || i == 96 {
            Some(Piece { piece_type: PieceType::Bishop, piece_color: PieceColor::Black })
        } else if i == 94 {
            Some(Piece { piece_type: PieceType::Queen, piece_color: PieceColor::Black })
        } else if i == 95 {
            Some(Piece { piece_type: PieceType::King(false), piece_color: PieceColor::Black })
        } else if 81 <= i && i <= 88 {
            Some(Piece { piece_type: PieceType::Pawn(false), piece_color: PieceColor::Black })
        } else {
            None
        }
    }
}

/// The glyph a cell renders as: the piece's symbol, or a space when empty.
pub open spec fn cell_char(o: Option<Piece>) -> char {
    match o {
        Some(p) => spec_symbol(p),
        None => ' ',
    }
}

/// The rendering of a board: the 8x8 playable area as lines of glyphs,
/// back rank first, each of the eight lines closed by a line break.
pub open spec fn render_spec(b: Cells) -> Seq<char> {
    Seq::new(
        72,
        |k: int|
            if k % 9 == 8 {
                '\n'
            } else {
                cell_char(b[(9 - k / 9) * 10 + k % 9 + 1])
            },
    )
}

impl Board {
    /// Renders the playable area as an 8-row-by-8-column grid of Unicode
    /// chess glyphs, back rank first, one line break after each row.
    pub fn render(&self) -> (r: Vec<char>)
        requires
            self.wf(),
        ensures
            r@ == render_spec(self@),
    {
        let mut out: Vec<char> = Vec::new();
        let mut i: usize = 0;
        while i < 8
            invariant
                self.wf(),
                i <= 8,
                out@.len() == 9 * i,
                forall|k: int| 0 <= k < out@.len() ==> out@[k] == render_spec(self@)[k],
            decreases 8 - i,
        {
            let row = 9 - i;
            let mut c: usize = 1;
            while c < 9
                invariant
                    self.wf(),
                    1 <= c <= 9,
                    i < 8,
                    row == 9 - i,
                    out@.len() == 9 * i + (c - 1),
                    forall|k: int| 0 <= k < out@.len() ==> out@[k] == render_spec(self@)[k],
                decreases 9 - c,
            {
                let idx = row * 10 + c;
                let ch = match self.fields[idx] {
                    Some(p) => p.get_symbol(),
                    None => ' ',
                };
                out.push(ch);
                proof {
                    assert(out@.last() == render_spec(self@)[9 * (i as int) + (c as int) - 1]);
                }
                c = c + 1;
            }
            out.push('\n');
            proof {
                assert(out@.last() == render_spec(self@)[9 * (i as int) + 8]);
            }
            i = i + 1;
        }
        proof {
            assert(out@ =~= render_spec(self@));
        }
        out
    }
}

impl Default for Board {
    /// The standard initial position: canonical back ranks on rows 2 and 9,
    /// pawns on rows 3 and 8, all other cells empty.
    fn default() -> (r: Self)
        ensures
            r.wf(),
            r@ == initial_cells(),
    {
        let mut fields: Vec<Option<Piece>> = Vec::new();
        let mut i: usize = 0;
        while i < SIZE
            invariant
                i <= 120,
                fields@.len() == i as int,
                forall|j: int| 0 <= j < i ==> fields@[j] == init_cell(j),
            decreases 120 - i,
        {
            fields.push(Self::initial_piece(i));
            i = i + 1;
        }
        proof {
            assert(fields@ =~= initial_cells());
            assert forall|k: int| 0 <= k < 120 && !crate::model::playable(k) implies initial_cells()[k] is None by {
                assert(initial_cells()[k] == init_cell(k));
            }
        }
        Self { fields }
    }
}

impl Clone for Board {
    /// A full copy of the board, used for scratch work in legality tests and
    /// search branches.
    fn clone(&self) -> (r: Self)
        ensures
            r@ == self@,
    {
        let n = self.fields.len();
        let mut fields: Vec<Option<Piece>> = Vec::new();
        let mut i: usize = 0;
        while i < n
            invariant
                i <= n,
                n == self.fields@.len(),
                fields@.len() == i as int,
                forall|j: int| 0 <= j < i ==> fields@[j] == self.fields@[j],
            decreases n - i,
        {
            fields.push(self.fields[i]);
            i = i + 1;
        }
        proof {
            assert(fields@ =~= self.fields@);
        }
        Self { fields }
    }
}

} // verus!
