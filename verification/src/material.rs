//! Material counted square by square, and its agreement with material
//! counted set by set.

use vstd::prelude::*;
use crate::bits::{has_square, sum_below, unit_weight};
use crate::evaluation::Placement;
use crate::pieces::PieceKind;

verus! {

/// The material on one square: the value of the piece that stands there,
/// negated for a black piece, 0 for an empty square.
pub open spec fn square_material(placement: Placement, square: int) -> int {
    let cost: int = match placement.kind_on(square) {
        Some(kind) => kind.value(),
        None => 0,
    };
    if placement.white_on(square) == Some(false) {
        -cost
    } else {
        cost
    }
}

/// The material on the squares below `n`.
pub open spec fn material_below(placement: Placement, n: nat) -> int
    decreases n,
{
    if n == 0 {
        0
    } else {
        material_below(placement, (n - 1) as nat) + square_material(placement, n - 1)
    }
}

/// A placement in which no square holds two pieces and every piece has one
/// colour: the sets of the kinds are disjoint, the sets of the colours are
/// disjoint, and together the kinds cover what the colours cover.
pub open spec fn tidy(placement: Placement) -> bool {
    &&& placement.pawns & placement.knights == 0
    &&& placement.pawns & placement.bishops == 0
    &&& placement.pawns & placement.rooks == 0
    &&& placement.pawns & placement.queens == 0
    &&& placement.pawns & placement.kings == 0
    &&& placement.knights & placement.bishops == 0
    &&& placement.knights & placement.rooks == 0
    &&& placement.knights & placement.queens == 0
    &&& placement.knights & placement.kings == 0
    &&& placement.bishops & placement.rooks == 0
    &&& placement.bishops & placement.queens == 0
    &&& placement.bishops & placement.kings == 0
    &&& placement.rooks & placement.queens == 0
    &&& placement.rooks & placement.kings == 0
    &&& placement.queens & placement.kings == 0
    &&& placement.white & placement.black == 0
    &&& placement.pawns | placement.knights | placement.bishops | placement.rooks
        | placement.queens | placement.kings == placement.white | placement.black
}

/// The material of one square, looked up piece by piece.
pub fn material_on(placement: &Placement, square: u8) -> (cost: i32)
    ensures
        cost == square_material(*placement, square as int),
        -20000 <= cost <= 20000,
{
    let piece = placement.piece_on(square);
    let mut cost: i32 = match piece {
        Some(PieceKind::Pawn) => 100,
        Some(PieceKind::Bishop) => 330,
        Some(PieceKind::Knight) => 320,
        Some(PieceKind::Rook) => 500,
        Some(PieceKind::Queen) => 900,
        Some(PieceKind::King) => 20000,
        None => 0,
    };
    if placement.color_on(square) == Some(false) {
        cost = -cost;
    }
    cost
}

/// The material balance of a placement, counted square by square over the
/// eight ranks and the eight files.
pub fn material_by_square(placement: &Placement) -> (value: i32)
    ensures
        value == material_below(*placement, 64),
{
    let mut value: i32 = 0;
    let mut rank: u8 = 0;
    while rank < 8
        invariant
            0 <= rank <= 8,
            value == material_below(*placement, (8 * rank) as nat),
            -160000 * rank <= value <= 160000 * rank,
        decreases 8 - rank,
    {
        let mut file: u8 = 0;
        while file < 8
            invariant
                0 <= rank < 8,
                0 <= file <= 8,
                value == material_below(*placement, (8 * rank + file) as nat),
                -160000 * rank - 20000 * file <= value <= 160000 * rank + 20000 * file,
            decreases 8 - file,
        {
            let square: u8 = rank * 8 + file;
            let cost: i32 = material_on(placement, square);
            value = value + cost;
            file = file + 1;
        }
        rank = rank + 1;
    }
    value
}

/// The material below `n` counted set by set.
pub open spec fn counted_below(placement: Placement, n: nat) -> int {
    kind_below(placement, PieceKind::Pawn, n) + kind_below(placement, PieceKind::Bishop, n)
        + kind_below(placement, PieceKind::Knight, n) + kind_below(placement, PieceKind::Rook, n)
        + kind_below(placement, PieceKind::Queen, n) + kind_below(placement, PieceKind::King, n)
}

/// The material balance of one kind on the squares below `n`.
pub open spec fn kind_below(placement: Placement, kind: PieceKind, n: nat) -> int {
    kind.value() * sum_below(placement.men(kind, true), unit_weight(), n) - kind.value()
        * sum_below(placement.men(kind, false), unit_weight(), n)
}

/// Disjoint sets do not share a square, and a square belongs to an
/// intersection exactly when it belongs to both sets.
proof fn lemma_two_sets(a: u64, b: u64, square: int)
    requires
        0 <= square < 64,
    ensures
        a & b == 0 ==> !(has_square(a, square) && has_square(b, square)),
        has_square(a & b, square) <==> has_square(a, square) && has_square(b, square),
{
    let i = square as u64;
    assert(a & b == 0 ==> !(((a >> i) & 1 == 1) && ((b >> i) & 1 == 1))) by (bit_vector);
    assert((((a & b) >> i) & 1 == 1) <==> ((a >> i) & 1 == 1) && ((b >> i) & 1 == 1))
        by (bit_vector);
}

/// On a tidy placement a square holds a piece of some kind exactly when it
/// holds a piece of some colour.
proof fn lemma_covered(placement: Placement, square: int)
    requires
        tidy(placement),
        0 <= square < 64,
    ensures
        has_square(placement.pawns, square) || has_square(placement.knights, square)
            || has_square(placement.bishops, square) || has_square(placement.rooks, square)
            || has_square(placement.queens, square) || has_square(placement.kings, square)
            <==> has_square(placement.white, square) || has_square(placement.black, square),
{
    let i = square as u64;
    let w = placement.white;
    let b = placement.black;
    let p = placement.pawns;
    let n = placement.knights;
    let s = placement.bishops;
    let r = placement.rooks;
    let q = placement.queens;
    let k = placement.kings;
    assert((p | n | s | r | q | k) == (w | b) ==> ((((p >> i) & 1 == 1) || ((n >> i) & 1 == 1) || ((s
        >> i) & 1 == 1) || ((r >> i) & 1 == 1) || ((q >> i) & 1 == 1) || ((k >> i) & 1 == 1)) <==> ((w
        >> i) & 1 == 1) || ((b >> i) & 1 == 1))) by (bit_vector);
}

/// What one more square adds to the balance of one kind: the value of the
/// kind where a white piece of it stands there, its negation where a black
/// one does.
proof fn lemma_kind_step(placement: Placement, kind: PieceKind, n: nat)
    requires
        0 < n <= 64,
    ensures
        kind_below(placement, kind, n) == kind_below(placement, kind, (n - 1) as nat) + (if has_square(
            placement.of(kind) & placement.white,
            n - 1,
        ) {
            kind.value()
        } else {
            0
        }) - (if has_square(placement.of(kind) & placement.black, n - 1) {
            kind.value()
        } else {
            0
        }),
{
    let v = kind.value();
    let w = sum_below(placement.men(kind, true), unit_weight(), (n - 1) as nat);
    let b = sum_below(placement.men(kind, false), unit_weight(), (n - 1) as nat);
    assert(v * (w + 1) == v * w + v && v * (b + 1) == v * b + v) by (nonlinear_arith);
}

/// On a tidy placement the two counts agree on the squares below `n`.
proof fn lemma_counts_agree_below(placement: Placement, n: nat)
    requires
        tidy(placement),
        n <= 64,
    ensures
        material_below(placement, n) == counted_below(placement, n),
    decreases n,
{
    if n > 0 {
        lemma_counts_agree_below(placement, (n - 1) as nat);
        let square = n - 1;
        lemma_kind_step(placement, PieceKind::Pawn, n);
        lemma_kind_step(placement, PieceKind::Knight, n);
        lemma_kind_step(placement, PieceKind::Bishop, n);
        lemma_kind_step(placement, PieceKind::Rook, n);
        lemma_kind_step(placement, PieceKind::Queen, n);
        lemma_kind_step(placement, PieceKind::King, n);
        lemma_covered(placement, square);
        lemma_two_sets(placement.white, placement.black, square);
        lemma_two_sets(placement.pawns, placement.knights, square);
        lemma_two_sets(placement.pawns, placement.bishops, square);
        lemma_two_sets(placement.pawns, placement.rooks, square);
        lemma_two_sets(placement.pawns, placement.queens, square);
        lemma_two_sets(placement.pawns, placement.kings, square);
        lemma_two_sets(placement.knights, placement.bishops, square);
        lemma_two_sets(placement.knights, placement.rooks, square);
        lemma_two_sets(placement.knights, placement.queens, square);
        lemma_two_sets(placement.knights, placement.kings, square);
        lemma_two_sets(placement.bishops, placement.rooks, square);
        lemma_two_sets(placement.bishops, placement.queens, square);
        lemma_two_sets(placement.bishops, placement.kings, square);
        lemma_two_sets(placement.rooks, placement.queens, square);
        lemma_two_sets(placement.rooks, placement.kings, square);
        lemma_two_sets(placement.queens, placement.kings, square);
        lemma_two_sets(placement.pawns, placement.white, square);
        lemma_two_sets(placement.pawns, placement.black, square);
        lemma_two_sets(placement.knights, placement.white, square);
        lemma_two_sets(placement.knights, placement.black, square);
        lemma_two_sets(placement.bishops, placement.white, square);
        lemma_two_sets(placement.bishops, placement.black, square);
        lemma_two_sets(placement.rooks, placement.white, square);
        lemma_two_sets(placement.rooks, placement.black, square);
        lemma_two_sets(placement.queens, placement.white, square);
        lemma_two_sets(placement.queens, placement.black, square);
        lemma_two_sets(placement.kings, placement.white, square);
        lemma_two_sets(placement.kings, placement.black, square);
    }
}

/// Counting material square by square and counting it set by set give the
/// same balance on every tidy placement.
pub proof fn lemma_counts_agree(placement: Placement)
    requires
        tidy(placement),
    ensures
        material_below(placement, 64) == placement.material_score(),
{
    lemma_counts_agree_below(placement, 64);
}

} // verus!
