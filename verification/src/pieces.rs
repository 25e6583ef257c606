//! Piece kinds, their material values and their piece-square tables.
//!
//! A table gives, for a white piece of one kind, the bonus in centipawns of
//! standing on each square; entry 0 is a1, entry 7 is h1, entry 63 is h8. A
//! black piece gets the bonus of the mirror-image square, so the two colours
//! are scored alike from their own side of the board.

use vstd::prelude::*;
use crate::bits::{mirror_square, mirrored_weight, table_weight};

verus! {

/// The six kinds of chess piece.
#[derive(Clone, Copy, Debug, PartialEq, Eq, Structural)]
pub enum PieceKind {
    Pawn,
    Knight,
    Bishop,
    Rook,
    Queen,
    King,
}

/// No table entry is further from zero than this.
pub const BONUS_LIMIT: i32 = 50;

pub const PAWN_TABLE: [i32; 64] = [
      0,   0,   0,   0,   0,   0,   0,   0,
      5,  10,  10, -20, -20,  10,  10,   5,
      5,  -5, -10,   0,   0, -10,  -5,   5,
      0,   0,   0,  20,  20,   0,   0,   0,
      5,   5,  10,  25,  25,  10,   5,   5,
     10,  10,  20,  30,  30,  20,  10,  10,
     50,  50,  50,  50,  50,  50,  50,  50,
      0,   0,   0,   0,   0,   0,   0,   0,
];

pub const KNIGHT_TABLE: [i32; 64] = [
    -50, -40, -30, -30, -30, -30, -40, -50,
    -40, -20,   0,   5,   5,   0, -20, -40,
    -30,   5,  10,  15,  15,  10,   5, -30,
    -30,   0,  15,  20,  20,  15,   0, -30,
    -30,   5,  15,  20,  20,  15,   5, -30,
    -30,   0,  10,  15,  15,  10,   0, -30,
    -40, -20,   0,   0,   0,   0, -20, -40,
    -50, -40, -30, -30, -30, -30, -40, -50,
];

pub const BISHOP_TABLE: [i32; 64] = [
    -20, -10, -10, -10, -10, -10, -10, -20,
    -10,   5,   0,   0,   0,   0,   5, -10,
    -10,  10,  10,  10,  10,  10,  10, -10,
    -10,   0,  10,  10,  10,  10,   0, -10,
    -10,   5,   5,  10,  10,   5,   5, -10,
    -10,   0,   5,  10,  10,   5,   0, -10,
    -10,   0,   0,   0,   0,   0,   0, -10,
    -20, -10, -10, -10, -10, -10, -10, -20,
];

pub const ROOK_TABLE: [i32; 64] = [
      0,   0,   0,   5,   5,   0,   0,   0,
     -5,   0,   0,   0,   0,   0,   0,  -5,
     -5,   0,   0,   0,   0,   0,   0,  -5,
     -5,   0,   0,   0,   0,   0,   0,  -5,
     -5,   0,   0,   0,   0,   0,   0,  -5,
     -5,   0,   0,   0,   0,   0,   0,  -5,
      5,  10,  10,  10,  10,  10,  10,   5,
      0,   0,   0,   0,   0,   0,   0,   0,
];

pub const QUEEN_TABLE: [i32; 64] = [
    -20, -10, -10,  -5,  -5, -10, -10, -20,
    -10,   0,   5,   0,   0,   0,   0, -10,
    -10,   5,   5,   5,   5,   5,   0, -10,
      0,   0,   5,   5,   5,   5,   0,  -5,
     -5,   0,   5,   5,   5,   5,   0,  -5,
    -10,   0,   5,   5,   5,   5,   0, -10,
    -10,   0,   0,   0,   0,   0,   0, -10,
    -20, -10, -10,  -5,  -5, -10, -10, -20,
];

pub const KING_TABLE: [i32; 64] = [
     20,  30,  10,   0,   0,  10,  30,  20,
     20,  20,   0,   0,   0,   0,  20,  20,
    -10, -20, -20, -20, -20, -20, -20, -10,
    -20, -30, -30, -40, -40, -30, -30, -20,
    -30, -40, -40, -50, -50, -40, -40, -30,
    -30, -40, -40, -50, -50, -40, -40, -30,
    -30, -40, -40, -50, -50, -40, -40, -30,
    -30, -40, -40, -50, -50, -40, -40, -30,
];

impl PieceKind {
    /// Material value in centipawns.
    pub open spec fn value(self) -> int {
        match self {
            PieceKind::Pawn => 100,
            PieceKind::Knight => 320,
            PieceKind::Bishop => 330,
            PieceKind::Rook => 500,
            PieceKind::Queen => 900,
            PieceKind::King => 20000,
        }
    }

    /// The table of a white piece of this kind.
    pub open spec fn table(self) -> Seq<i32> {
        match self {
            PieceKind::Pawn => PAWN_TABLE@,
            PieceKind::Knight => KNIGHT_TABLE@,
            PieceKind::Bishop => BISHOP_TABLE@,
            PieceKind::Rook => ROOK_TABLE@,
            PieceKind::Queen => QUEEN_TABLE@,
            PieceKind::King => KING_TABLE@,
        }
    }

    /// The bonus of a piece of this kind and colour on `square`: the table
    /// entry of the square for White, of its mirror image for Black.
    pub open spec fn bonus(self, white: bool, square: int) -> int {
        if white {
            self.table()[square] as int
        } else {
            self.table()[mirror_square(square)] as int
        }
    }

    /// `bonus` as a weight on squares.
    pub open spec fn bonus_weight(self, white: bool) -> spec_fn(int) -> int {
        if white {
            table_weight(self.table())
        } else {
            mirrored_weight(table_weight(self.table()))
        }
    }

    /// Material value in centipawns.
    pub fn material_value(self) -> (v: i32)
        ensures
            v == self.value(),
    {
        match self {
            PieceKind::Pawn => 100,
            PieceKind::Knight => 320,
            PieceKind::Bishop => 330,
            PieceKind::Rook => 500,
            PieceKind::Queen => 900,
            PieceKind::King => 20000,
        }
    }

    /// The table of a white piece of this kind.
    pub fn bonus_table(self) -> (table: &'static [i32; 64])
        ensures
            table@ == self.table(),
    {
        match self {
            PieceKind::Pawn => &PAWN_TABLE,
            PieceKind::Knight => &KNIGHT_TABLE,
            PieceKind::Bishop => &BISHOP_TABLE,
            PieceKind::Rook => &ROOK_TABLE,
            PieceKind::Queen => &QUEEN_TABLE,
            PieceKind::King => &KING_TABLE,
        }
    }

    /// The bonus of a piece of this kind and colour on `square`.
    pub fn positional_bonus(self, white: bool, square: u8) -> (b: i32)
        requires
            square < 64,
        ensures
            b == self.bonus(white, square as int),
            b == (self.bonus_weight(white))(square as int),
            -BONUS_LIMIT <= b <= BONUS_LIMIT,
    {
        let table = self.bonus_table();
        proof {
            lemma_table_bounds(self);
            assert(square ^ 56 == mirror_square(square as int)) by (bit_vector)
                requires
                    square < 64,
            ;
            assert(square ^ 56 < 64) by (bit_vector)
                requires
                    square < 64,
            ;
        }
        if white {
            table[square as usize]
        } else {
            table[(square ^ 56) as usize]
        }
    }
}

/// Every table has 64 entries, none further from zero than `BONUS_LIMIT`.
pub proof fn lemma_table_bounds(kind: PieceKind)
    ensures
        kind.table().len() == 64,
        forall|i: int| 0 <= i < 64 ==> -BONUS_LIMIT <= #[trigger] kind.table()[i] <= BONUS_LIMIT,
{
}

/// Every bonus, of either colour, is within `BONUS_LIMIT` of zero.
pub proof fn lemma_bonus_bounds(kind: PieceKind, white: bool)
    ensures
        forall|i: int|
            0 <= i < 64 ==> -BONUS_LIMIT <= #[trigger] (kind.bonus_weight(white))(i)
                <= BONUS_LIMIT,
        forall|i: int|
            0 <= i < 64 ==> (kind.bonus_weight(white))(i) == kind.bonus(white, i),
{
    lemma_table_bounds(kind);
    assert forall|i: int| 0 <= i < 64 implies -BONUS_LIMIT <= #[trigger] (kind.bonus_weight(
        white,
    ))(i) <= BONUS_LIMIT && (kind.bonus_weight(white))(i) == kind.bonus(white, i) by {
        assert(0 <= mirror_square(i) < 64);
    }
}

} // verus!
