//! The static evaluator: material balance plus piece-square bonuses, in
//! centipawns, positive when White is better.

use vstd::prelude::*;
use crate::bits::{
    count, count_squares, flip_vertical, flipped, has_square, holds, lemma_flipped_algebra,
    lemma_flipped_count,
    lemma_count_part, lemma_flipped_sum, lemma_mirrored_twice, lemma_sum_bounds,
    lemma_sum_by_count, mirrored_weight, sum_over, table_weight, unit_weight, weighted_sum,
};
use crate::pieces::{lemma_bonus_bounds, lemma_table_bounds, PieceKind, BONUS_LIMIT};

verus! {

/// Where the pieces stand: one set of squares for each kind of piece and one
/// for each colour.
#[derive(Clone, Copy, Debug, PartialEq, Eq, Structural)]
pub struct Placement {
    pub pawns: u64,
    pub knights: u64,
    pub bishops: u64,
    pub rooks: u64,
    pub queens: u64,
    pub kings: u64,
    pub white: u64,
    pub black: u64,
}

/// The material and positional balance of one kind of piece, given the
/// squares of the white and of the black pieces of that kind.
pub open spec fn balance(kind: PieceKind, white_men: u64, black_men: u64) -> int {
    kind.value() * count(white_men) - kind.value() * count(black_men) + sum_over(
        white_men,
        kind.bonus_weight(true),
    ) - sum_over(black_men, kind.bonus_weight(false))
}

/// The material balance alone of one kind of piece.
pub open spec fn material(kind: PieceKind, white_men: u64, black_men: u64) -> int {
    kind.value() * count(white_men) - kind.value() * count(black_men)
}

/// The placement at the start of a game.
pub open spec fn initial_placement() -> Placement {
    Placement {
        pawns: 0x00ff_0000_0000_ff00,
        knights: 0x4200_0000_0000_0042,
        bishops: 0x2400_0000_0000_0024,
        rooks: 0x8100_0000_0000_0081,
        queens: 0x0800_0000_0000_0008,
        kings: 0x1000_0000_0000_0010,
        white: 0x0000_0000_0000_ffff,
        black: 0xffff_0000_0000_0000,
    }
}

/// Most pieces that one side can have.
pub const SIDE_LIMIT: u32 = 16;

/// No regular placement scores further from zero than this.
pub const EVALUATION_LIMIT: i32 = 42_500;

impl Placement {
    /// A placement with one king and at most `SIDE_LIMIT` pieces on each
    /// side.
    pub open spec fn regular(self) -> bool {
        &&& count(self.men(PieceKind::King, true)) == 1
        &&& count(self.men(PieceKind::King, false)) == 1
        &&& count(self.white) <= SIDE_LIMIT
        &&& count(self.black) <= SIDE_LIMIT
    }

    /// The squares that hold a piece of `kind`.
    pub open spec fn of(self, kind: PieceKind) -> u64 {
        match kind {
            PieceKind::Pawn => self.pawns,
            PieceKind::Knight => self.knights,
            PieceKind::Bishop => self.bishops,
            PieceKind::Rook => self.rooks,
            PieceKind::Queen => self.queens,
            PieceKind::King => self.kings,
        }
    }

    /// The squares that hold a piece of one colour.
    pub open spec fn side(self, white: bool) -> u64 {
        if white {
            self.white
        } else {
            self.black
        }
    }

    /// The squares that hold a piece of `kind` and of one colour.
    pub open spec fn men(self, kind: PieceKind, white: bool) -> u64 {
        self.of(kind) & self.side(white)
    }

    /// The balance of one kind of piece.
    pub open spec fn piece_balance(self, kind: PieceKind) -> int {
        balance(kind, self.men(kind, true), self.men(kind, false))
    }

    /// The score of the placement: the sum of the balances of the six kinds.
    pub open spec fn evaluation(self) -> int {
        self.piece_balance(PieceKind::Pawn) + self.piece_balance(PieceKind::Bishop)
            + self.piece_balance(PieceKind::Knight) + self.piece_balance(PieceKind::Rook)
            + self.piece_balance(PieceKind::Queen) + self.piece_balance(PieceKind::King)
    }

    /// The material balance of one kind of piece.
    pub open spec fn piece_material(self, kind: PieceKind) -> int {
        material(kind, self.men(kind, true), self.men(kind, false))
    }

    /// The material balance of the placement.
    pub open spec fn material_score(self) -> int {
        self.piece_material(PieceKind::Pawn) + self.piece_material(PieceKind::Bishop)
            + self.piece_material(PieceKind::Knight) + self.piece_material(PieceKind::Rook)
            + self.piece_material(PieceKind::Queen) + self.piece_material(PieceKind::King)
    }

    /// The kind of the piece on `square`, if one stands there.
    pub open spec fn kind_on(self, square: int) -> Option<PieceKind> {
        if has_square(self.pawns, square) {
            Some(PieceKind::Pawn)
        } else if has_square(self.knights, square) {
            Some(PieceKind::Knight)
        } else if has_square(self.bishops, square) {
            Some(PieceKind::Bishop)
        } else if has_square(self.rooks, square) {
            Some(PieceKind::Rook)
        } else if has_square(self.queens, square) {
            Some(PieceKind::Queen)
        } else if has_square(self.kings, square) {
            Some(PieceKind::King)
        } else {
            None
        }
    }

    /// Whether the piece on `square` is White's (`true`) or Black's
    /// (`false`), if one stands there.
    pub open spec fn white_on(self, square: int) -> Option<bool> {
        if has_square(self.white, square) {
            Some(true)
        } else if has_square(self.black, square) {
            Some(false)
        } else {
            None
        }
    }

    /// The placement seen from the other side: every piece changes colour
    /// and moves to the mirror image of its square.
    pub open spec fn mirror(self) -> Placement {
        Placement {
            pawns: flipped(self.pawns),
            knights: flipped(self.knights),
            bishops: flipped(self.bishops),
            rooks: flipped(self.rooks),
            queens: flipped(self.queens),
            kings: flipped(self.kings),
            white: flipped(self.black),
            black: flipped(self.white),
        }
    }

    /// The placement at the start of a game.
    pub fn initial() -> (placement: Placement)
        ensures
            placement == initial_placement(),
    {
        Placement {
            pawns: 0x00ff_0000_0000_ff00,
            knights: 0x4200_0000_0000_0042,
            bishops: 0x2400_0000_0000_0024,
            rooks: 0x8100_0000_0000_0081,
            queens: 0x0800_0000_0000_0008,
            kings: 0x1000_0000_0000_0010,
            white: 0x0000_0000_0000_ffff,
            black: 0xffff_0000_0000_0000,
        }
    }

    /// The squares that hold a piece of `kind`.
    pub fn kind_bits(&self, kind: PieceKind) -> (bits: u64)
        ensures
            bits == self.of(kind),
    {
        match kind {
            PieceKind::Pawn => self.pawns,
            PieceKind::Knight => self.knights,
            PieceKind::Bishop => self.bishops,
            PieceKind::Rook => self.rooks,
            PieceKind::Queen => self.queens,
            PieceKind::King => self.kings,
        }
    }

    /// The squares that hold a piece of one colour.
    pub fn side_bits(&self, white: bool) -> (bits: u64)
        ensures
            bits == self.side(white),
    {
        if white {
            self.white
        } else {
            self.black
        }
    }

    /// The kind of the piece on `square`, if one stands there.
    pub fn piece_on(&self, square: u8) -> (kind: Option<PieceKind>)
        ensures
            kind == self.kind_on(square as int),
    {
        if holds(self.pawns, square) {
            Some(PieceKind::Pawn)
        } else if holds(self.knights, square) {
            Some(PieceKind::Knight)
        } else if holds(self.bishops, square) {
            Some(PieceKind::Bishop)
        } else if holds(self.rooks, square) {
            Some(PieceKind::Rook)
        } else if holds(self.queens, square) {
            Some(PieceKind::Queen)
        } else if holds(self.kings, square) {
            Some(PieceKind::King)
        } else {
            None
        }
    }

    /// Whether the piece on `square` is White's (`true`) or Black's
    /// (`false`), if one stands there.
    pub fn color_on(&self, square: u8) -> (white: Option<bool>)
        ensures
            white == self.white_on(square as int),
    {
        if holds(self.white, square) {
            Some(true)
        } else if holds(self.black, square) {
            Some(false)
        } else {
            None
        }
    }

    /// The placement seen from the other side.
    pub fn mirrored(&self) -> (m: Placement)
        ensures
            m == self.mirror(),
    {
        Placement {
            pawns: flip_vertical(self.pawns),
            knights: flip_vertical(self.knights),
            bishops: flip_vertical(self.bishops),
            rooks: flip_vertical(self.rooks),
            queens: flip_vertical(self.queens),
            kings: flip_vertical(self.kings),
            white: flip_vertical(self.black),
            black: flip_vertical(self.white),
        }
    }

    /// The balance of one kind of piece.
    pub fn get_piece_balance(&self, piece: PieceKind) -> (value: i32)
        ensures
            value == self.piece_balance(piece),
    {
        let pieces: u64 = self.kind_bits(piece);
        piece_balance_of(piece, pieces & self.white, pieces & self.black)
    }

    /// The material balance of one kind of piece.
    pub fn get_material_balance(&self, piece: PieceKind) -> (value: i32)
        ensures
            value == self.piece_material(piece),
    {
        let pieces: u64 = self.kind_bits(piece);
        material_balance_of(piece, pieces & self.white, pieces & self.black)
    }

    /// The material balance of the placement, positive when White has more.
    pub fn evaluate_material(&self) -> (value: i32)
        ensures
            value == self.material_score(),
    {
        proof {
            lemma_evaluation_bounds(*self);
        }
        let mut value: i32 = 0;
        value = value + self.get_material_balance(PieceKind::Pawn);
        value = value + self.get_material_balance(PieceKind::Bishop);
        value = value + self.get_material_balance(PieceKind::Knight);
        value = value + self.get_material_balance(PieceKind::Rook);
        value = value + self.get_material_balance(PieceKind::Queen);
        value = value + self.get_material_balance(PieceKind::King);
        value
    }

    /// The score of the placement, positive when White is better.
    pub fn evaluate(&self) -> (value: i32)
        ensures
            value == self.evaluation(),
    {
        proof {
            lemma_evaluation_bounds(*self);
        }
        let mut value: i32 = 0;
        value = value + self.get_piece_balance(PieceKind::Pawn);
        value = value + self.get_piece_balance(PieceKind::Bishop);
        value = value + self.get_piece_balance(PieceKind::Knight);
        value = value + self.get_piece_balance(PieceKind::Rook);
        value = value + self.get_piece_balance(PieceKind::Queen);
        value = value + self.get_piece_balance(PieceKind::King);
        value
    }
}

/// No balance of one kind of piece is further from zero than this.
pub const BALANCE_LIMIT: i32 = 1_286_400;

/// The balance of one kind stays within `BALANCE_LIMIT` whatever the sets.
pub proof fn lemma_balance_bounds(kind: PieceKind, white_men: u64, black_men: u64)
    ensures
        -BALANCE_LIMIT <= balance(kind, white_men, black_men) <= BALANCE_LIMIT,
        -BALANCE_LIMIT <= material(kind, white_men, black_men) <= BALANCE_LIMIT,
        0 <= count(white_men) <= 64,
        0 <= count(black_men) <= 64,
        -64 * BONUS_LIMIT <= sum_over(white_men, kind.bonus_weight(true)) <= 64 * BONUS_LIMIT,
        -64 * BONUS_LIMIT <= sum_over(black_men, kind.bonus_weight(false)) <= 64 * BONUS_LIMIT,
{
    lemma_sum_bounds(white_men, unit_weight(), 64, 0, 1);
    lemma_sum_bounds(black_men, unit_weight(), 64, 0, 1);
    lemma_bonus_bounds(kind, true);
    lemma_bonus_bounds(kind, false);
    lemma_sum_bounds(white_men, kind.bonus_weight(true), 64, -BONUS_LIMIT as int, BONUS_LIMIT as int);
    lemma_sum_bounds(black_men, kind.bonus_weight(false), 64, -BONUS_LIMIT as int, BONUS_LIMIT as int);
    let v = kind.value();
    let w = count(white_men);
    let b = count(black_men);
    assert(0 <= v * w <= 20000 * 64 && 0 <= v * b <= 20000 * 64) by (nonlinear_arith)
        requires
            0 <= v <= 20000,
            0 <= w <= 64,
            0 <= b <= 64,
    ;
}

/// No score of a placement is further from zero than this.
pub const SCORE_LIMIT: i32 = 7_718_400;

/// Whatever the placement, the balance of every kind stays within
/// `BALANCE_LIMIT` and the two scores within `SCORE_LIMIT`.
pub proof fn lemma_evaluation_bounds(placement: Placement)
    ensures
        forall|kind: PieceKind|
            -BALANCE_LIMIT <= #[trigger] placement.piece_balance(kind) <= BALANCE_LIMIT,
        forall|kind: PieceKind|
            -BALANCE_LIMIT <= #[trigger] placement.piece_material(kind) <= BALANCE_LIMIT,
        -SCORE_LIMIT <= placement.evaluation() <= SCORE_LIMIT,
        -SCORE_LIMIT <= placement.material_score() <= SCORE_LIMIT,
{
    assert forall|kind: PieceKind|
        -BALANCE_LIMIT <= #[trigger] placement.piece_balance(kind) <= BALANCE_LIMIT by {
        lemma_balance_bounds(kind, placement.men(kind, true), placement.men(kind, false));
    }
    assert forall|kind: PieceKind|
        -BALANCE_LIMIT <= #[trigger] placement.piece_material(kind) <= BALANCE_LIMIT by {
        lemma_balance_bounds(kind, placement.men(kind, true), placement.men(kind, false));
    }
}

/// Computes the material balance of one kind of piece from the squares of
/// its white and of its black pieces.
pub fn material_balance_of(piece: PieceKind, white_men: u64, black_men: u64) -> (value: i32)
    ensures
        value == material(piece, white_men, black_men),
{
    let cost: i32 = piece.material_value();
    proof {
        lemma_balance_bounds(piece, white_men, black_men);
    }
    let mut value: i32 = 0;
    let mut num: i32 = count_squares(white_men) as i32;
    assert(0 <= cost * num <= 20000 * 64) by (nonlinear_arith)
        requires
            0 <= cost <= 20000,
            0 <= num <= 64,
    ;
    value = value + num * cost;
    num = count_squares(black_men) as i32;
    assert(0 <= cost * num <= 20000 * 64) by (nonlinear_arith)
        requires
            0 <= cost <= 20000,
            0 <= num <= 64,
    ;
    value = value - num * cost;
    value
}

/// Computes the balance of one kind of piece from the squares of its white
/// and of its black pieces.
pub fn piece_balance_of(piece: PieceKind, white_men: u64, black_men: u64) -> (value: i32)
    ensures
        value == balance(piece, white_men, black_men),
{
    let cost: i32 = piece.material_value();
    let table = piece.bonus_table();
    proof {
        lemma_balance_bounds(piece, white_men, black_men);
        lemma_table_bounds(piece);
        lemma_flipped_sum(black_men, table_weight(piece.table()));
        lemma_flipped_algebra(black_men, black_men);
        lemma_flipped_sum(flipped(black_men), piece.bonus_weight(false));
    }
    let mut value: i32 = 0;
    let mut num: i32 = count_squares(white_men) as i32;
    assert(0 <= cost * num <= 20000 * 64) by (nonlinear_arith)
        requires
            0 <= cost <= 20000,
            0 <= num <= 64,
    ;
    value = value + num * cost;
    let mut position_value: i32 = weighted_sum(white_men, table);
    value = value + position_value;

    num = count_squares(black_men) as i32;
    assert(0 <= cost * num <= 20000 * 64) by (nonlinear_arith)
        requires
            0 <= cost <= 20000,
            0 <= num <= 64,
    ;
    value = value - num * cost;
    position_value = weighted_sum(flip_vertical(black_men), table);
    proof {
        assert(sum_over(flipped(black_men), table_weight(piece.table())) == sum_over(
            black_men,
            piece.bonus_weight(false),
        ));
    }
    value = value - position_value;
    value
}


/// Exchanging the two sets of one kind and flipping both negates the balance.
pub proof fn lemma_balance_mirrored(kind: PieceKind, white_men: u64, black_men: u64)
    ensures
        balance(kind, flipped(black_men), flipped(white_men)) == -balance(
            kind,
            white_men,
            black_men,
        ),
{
    let table = table_weight(kind.table());
    lemma_flipped_count(white_men);
    lemma_flipped_count(black_men);
    lemma_flipped_sum(black_men, table);
    lemma_flipped_sum(white_men, mirrored_weight(table));
    lemma_mirrored_twice(white_men, table);
}

/// Evaluator symmetry: mirroring every piece's colour and rank negates the
/// score exactly.
pub proof fn lemma_mirror_negates(placement: Placement)
    ensures
        placement.mirror().evaluation() == -placement.evaluation(),
        placement.mirror().mirror() == placement,
{
    let m = placement.mirror();
    assert forall|kind: PieceKind| #[trigger] m.piece_balance(kind) == -placement.piece_balance(
        kind,
    ) by {
        lemma_flipped_algebra(placement.of(kind), placement.black);
        lemma_flipped_algebra(placement.of(kind), placement.white);
        assert(m.of(kind) == flipped(placement.of(kind)));
        lemma_balance_mirrored(kind, placement.men(kind, true), placement.men(kind, false));
    }
    lemma_flipped_algebra(placement.pawns, placement.pawns);
    lemma_flipped_algebra(placement.knights, placement.knights);
    lemma_flipped_algebra(placement.bishops, placement.bishops);
    lemma_flipped_algebra(placement.rooks, placement.rooks);
    lemma_flipped_algebra(placement.queens, placement.queens);
    lemma_flipped_algebra(placement.kings, placement.kings);
    lemma_flipped_algebra(placement.white, placement.white);
    lemma_flipped_algebra(placement.black, placement.black);
}


/// A placement that is its own mirror image scores zero.
pub proof fn lemma_symmetric_is_level(placement: Placement)
    requires
        placement.mirror() == placement,
    ensures
        placement.evaluation() == 0,
{
    lemma_mirror_negates(placement);
}

/// The placement at the start of a game scores zero.
pub proof fn lemma_initial_is_level()
    ensures
        initial_placement().evaluation() == 0,
{
    let start = initial_placement();
    assert(flipped(0x00ff_0000_0000_ff00) == 0x00ff_0000_0000_ff00) by (bit_vector);
    assert(flipped(0x4200_0000_0000_0042) == 0x4200_0000_0000_0042) by (bit_vector);
    assert(flipped(0x2400_0000_0000_0024) == 0x2400_0000_0000_0024) by (bit_vector);
    assert(flipped(0x8100_0000_0000_0081) == 0x8100_0000_0000_0081) by (bit_vector);
    assert(flipped(0x0800_0000_0000_0008) == 0x0800_0000_0000_0008) by (bit_vector);
    assert(flipped(0x1000_0000_0000_0010) == 0x1000_0000_0000_0010) by (bit_vector);
    assert(flipped(0x0000_0000_0000_ffff) == 0xffff_0000_0000_0000) by (bit_vector);
    assert(flipped(0xffff_0000_0000_0000) == 0x0000_0000_0000_ffff) by (bit_vector);
    assert(start.mirror() == start);
    lemma_symmetric_is_level(start);
}

/// The balance of one kind of piece is bounded by the numbers of its pieces.
proof fn lemma_balance_by_count(kind: PieceKind, white_men: u64, black_men: u64)
    ensures
        balance(kind, white_men, black_men) <= (kind.value() + BONUS_LIMIT) * count(white_men) - (
        kind.value() - BONUS_LIMIT) * count(black_men),
        balance(kind, white_men, black_men) >= (kind.value() - BONUS_LIMIT) * count(white_men) - (
        kind.value() + BONUS_LIMIT) * count(black_men),
{
    lemma_bonus_bounds(kind, true);
    lemma_bonus_bounds(kind, false);
    lemma_sum_by_count(white_men, kind.bonus_weight(true), 64, -BONUS_LIMIT as int, BONUS_LIMIT as int);
    lemma_sum_by_count(black_men, kind.bonus_weight(false), 64, -BONUS_LIMIT as int, BONUS_LIMIT as int);
    let v = kind.value();
    let w = count(white_men);
    let b = count(black_men);
    assert((v + BONUS_LIMIT) * w == v * w + BONUS_LIMIT * w && (v - BONUS_LIMIT) * w == v * w
        - BONUS_LIMIT * w && (v + BONUS_LIMIT) * b == v * b + BONUS_LIMIT * b && (v - BONUS_LIMIT)
        * b == v * b - BONUS_LIMIT * b && (-BONUS_LIMIT) * w == -(BONUS_LIMIT * w) && (
    -BONUS_LIMIT) * b == -(BONUS_LIMIT * b)) by (nonlinear_arith);
}

/// Dominance: a regular placement scores strictly within `EVALUATION_LIMIT`
/// of zero, whatever stands where.
pub proof fn lemma_regular_bounds(placement: Placement)
    requires
        placement.regular(),
    ensures
        -EVALUATION_LIMIT <= placement.evaluation() <= EVALUATION_LIMIT,
{
    assert forall|kind: PieceKind|
        0 <= count(#[trigger] placement.men(kind, true)) <= SIDE_LIMIT && 0 <= count(
            placement.men(kind, false),
        ) <= SIDE_LIMIT by {
        lemma_count_part(placement.of(kind), placement.white, 64);
        lemma_count_part(placement.of(kind), placement.black, 64);
    }
    lemma_kind_bounds(placement, PieceKind::Pawn);
    lemma_kind_bounds(placement, PieceKind::Knight);
    lemma_kind_bounds(placement, PieceKind::Bishop);
    lemma_kind_bounds(placement, PieceKind::Rook);
    lemma_kind_bounds(placement, PieceKind::Queen);
    lemma_balance_by_count(
        PieceKind::King,
        placement.men(PieceKind::King, true),
        placement.men(PieceKind::King, false),
    );
}

/// With at most `SIDE_LIMIT` pieces of a kind on each side, the balance of
/// the kind is within `SIDE_LIMIT` times its value and bonus.
proof fn lemma_kind_bounds(placement: Placement, kind: PieceKind)
    requires
        0 <= count(placement.men(kind, true)) <= SIDE_LIMIT,
        0 <= count(placement.men(kind, false)) <= SIDE_LIMIT,
        kind != PieceKind::King,
    ensures
        -SIDE_LIMIT * (kind.value() + BONUS_LIMIT) - SIDE_LIMIT * BONUS_LIMIT
            <= placement.piece_balance(kind) <= SIDE_LIMIT * (kind.value() + BONUS_LIMIT)
            + SIDE_LIMIT * BONUS_LIMIT,
{
    let w = count(placement.men(kind, true));
    let b = count(placement.men(kind, false));
    let v = kind.value();
    lemma_balance_by_count(kind, placement.men(kind, true), placement.men(kind, false));
    assert((v + BONUS_LIMIT) * w <= (v + BONUS_LIMIT) * 16 && (v - BONUS_LIMIT) * b >= -50 * 16
        && (v - BONUS_LIMIT) * w >= -50 * 16 && (v + BONUS_LIMIT) * b <= (v + BONUS_LIMIT) * 16)
        by (nonlinear_arith)
        requires
            0 <= w <= 16,
            0 <= b <= 16,
            100 <= v <= 900,
    ;
}

} // verus!
