//! Bitboards as sets of squares: membership, sums over the members, and the
//! loop that visits each member once.

use vstd::prelude::*;
use vstd::std_specs::bits::{axiom_u64_trailing_zeros, u64_trailing_zeros};

verus! {

/// Whether square `i` belongs to the set `bits`. Square 0 is a1, square 7 is
/// h1, square 63 is h8.
pub open spec fn has_square(bits: u64, i: int) -> bool {
    0 <= i < 64 && (bits >> (i as u64)) & 1 == 1
}

/// The sum of `weight(i)` over the members `i` of `bits` that lie below `n`.
pub open spec fn sum_below(bits: u64, weight: spec_fn(int) -> int, n: nat) -> int
    decreases n,
{
    if n == 0 {
        0
    } else {
        sum_below(bits, weight, (n - 1) as nat) + if has_square(bits, n - 1) {
            weight(n - 1)
        } else {
            0
        }
    }
}

/// The sum of `weight(i)` over all members `i` of `bits`.
pub open spec fn sum_over(bits: u64, weight: spec_fn(int) -> int) -> int {
    sum_below(bits, weight, 64)
}

/// Number of squares in `bits`.
pub open spec fn count(bits: u64) -> int {
    sum_over(bits, unit_weight())
}

/// `bits` without its lowest member.
pub open spec fn without_lowest(bits: u64) -> u64 {
    bits & ((bits - 1) as u64)
}

/// Clearing the lowest set bit removes exactly the square that
/// `trailing_zeros` names.
pub proof fn lemma_without_lowest(bits: u64)
    requires
        bits != 0,
    ensures
        0 <= u64_trailing_zeros(bits) < 64,
        has_square(bits, u64_trailing_zeros(bits) as int),
        forall|i: int|
            0 <= i < 64 ==> (#[trigger] has_square(without_lowest(bits), i) <==> has_square(
                bits,
                i,
            ) && i != u64_trailing_zeros(bits)),
{
    axiom_u64_trailing_zeros(bits);
    let t = u64_trailing_zeros(bits) as u64;
    let low = (64 - t) as u64;
    assert(bits << low == 0);
    assert forall|i: int| 0 <= i < 64 implies (#[trigger] has_square(without_lowest(bits), i)
        <==> has_square(bits, i) && i != t) by {
        let iu = i as u64;
        assert((((bits & ((bits - 1) as u64)) >> iu) & 1 == 1) <==> (((bits >> iu) & 1 == 1) && iu
            != t)) by (bit_vector)
            requires
                iu < 64,
                t < 64,
                bits != 0,
                (bits >> t) & 1 == 1,
                low == 64 - t,
                bits << low == 0,
        ;
    }
}

/// Two sets that differ only in square `t`, which the first has and the
/// second lacks, differ in their sums by `weight(t)`.
pub proof fn lemma_sum_without(a: u64, b: u64, t: int, weight: spec_fn(int) -> int, n: nat)
    requires
        n <= 64,
        has_square(a, t),
        forall|i: int| 0 <= i < 64 ==> (#[trigger] has_square(b, i) <==> has_square(a, i) && i != t),
    ensures
        sum_below(a, weight, n) == sum_below(b, weight, n) + if t < n {
            weight(t)
        } else {
            0
        },
    decreases n,
{
    if n > 0 {
        lemma_sum_without(a, b, t, weight, (n - 1) as nat);
        assert(has_square(b, n - 1) <==> has_square(a, n - 1) && n - 1 != t);
    }
}

/// A sum of weights that all lie between `lo` and `hi` lies between `n * lo`
/// and `n * hi`.
pub proof fn lemma_sum_bounds(bits: u64, weight: spec_fn(int) -> int, n: nat, lo: int, hi: int)
    requires
        n <= 64,
        lo <= 0 <= hi,
        forall|i: int| 0 <= i < 64 ==> lo <= #[trigger] weight(i) <= hi,
    ensures
        n * lo <= sum_below(bits, weight, n) <= n * hi,
    decreases n,
{
    if n > 0 {
        let m = (n - 1) as nat;
        lemma_sum_bounds(bits, weight, m, lo, hi);
        assert(lo <= weight(n - 1) <= hi);
        assert(n * lo == m * lo + lo && n * hi == m * hi + hi) by (nonlinear_arith)
            requires
                n == m + 1,
        ;
    } else {
        assert(n * lo == 0 && n * hi == 0) by (nonlinear_arith)
            requires
                n == 0,
        ;
    }
}

/// Weights that agree on every square give the same sum.
pub proof fn lemma_sum_agree(
    bits: u64,
    first: spec_fn(int) -> int,
    second: spec_fn(int) -> int,
    n: nat,
)
    requires
        n <= 64,
        forall|i: int| 0 <= i < 64 ==> #[trigger] first(i) == second(i),
    ensures
        sum_below(bits, first, n) == sum_below(bits, second, n),
    decreases n,
{
    if n > 0 {
        lemma_sum_agree(bits, first, second, (n - 1) as nat);
        assert(first(n - 1) == second(n - 1));
    }
}

/// A sum of weights between `lo` and `hi` lies between `lo` and `hi` times
/// the number of squares summed over.
pub proof fn lemma_sum_by_count(bits: u64, weight: spec_fn(int) -> int, n: nat, lo: int, hi: int)
    requires
        n <= 64,
        forall|i: int| 0 <= i < 64 ==> lo <= #[trigger] weight(i) <= hi,
    ensures
        lo * sum_below(bits, unit_weight(), n) <= sum_below(bits, weight, n) <= hi * sum_below(
            bits,
            unit_weight(),
            n,
        ),
    decreases n,
{
    if n > 0 {
        let m = (n - 1) as nat;
        lemma_sum_by_count(bits, weight, m, lo, hi);
        assert(lo <= weight(n - 1) <= hi);
        let before = sum_below(bits, unit_weight(), m);
        assert(lo * (before + 1) == lo * before + lo && hi * (before + 1) == hi * before + hi)
            by (nonlinear_arith);
    } else {
        assert(lo * 0 == 0 && hi * 0 == 0) by (nonlinear_arith);
    }
}

/// A part of a set has no more squares than the set.
pub proof fn lemma_count_part(part: u64, whole: u64, n: nat)
    requires
        n <= 64,
    ensures
        0 <= sum_below(part & whole, unit_weight(), n) <= sum_below(whole, unit_weight(), n),
    decreases n,
{
    if n > 0 {
        lemma_count_part(part, whole, (n - 1) as nat);
        let i = (n - 1) as u64;
        assert(((part & whole) >> i) & 1 == 1 ==> (whole >> i) & 1 == 1) by (bit_vector);
    }
}

/// The empty set sums to zero.
pub proof fn lemma_sum_empty(weight: spec_fn(int) -> int, n: nat)
    requires
        n <= 64,
    ensures
        sum_below(0, weight, n) == 0,
    decreases n,
{
    if n > 0 {
        lemma_sum_empty(weight, (n - 1) as nat);
        let i = (n - 1) as u64;
        assert((0u64 >> i) & 1 == 0) by (bit_vector);
    }
}

/// The weight that is 1 on every square.
pub open spec fn unit_weight() -> spec_fn(int) -> int {
    |i: int| 1int
}

/// The weight that a table of 64 entries gives to each square.
pub open spec fn table_weight(table: Seq<i32>) -> spec_fn(int) -> int {
    |i: int| table[i] as int
}

/// Largest absolute value of a table entry that `weighted_sum` accepts.
pub const WEIGHT_LIMIT: i32 = 1_000_000;

/// Whether every entry of `table` is within `WEIGHT_LIMIT` of zero.
pub open spec fn within_limit(table: Seq<i32>) -> bool {
    forall|i: int| 0 <= i < table.len() ==> -WEIGHT_LIMIT <= #[trigger] table[i] <= WEIGHT_LIMIT
}

/// Whether `square` belongs to `bits`.
pub fn holds(bits: u64, square: u8) -> (member: bool)
    ensures
        member == has_square(bits, square as int),
{
    square < 64 && (bits >> (square as u64)) & 1 == 1
}

/// Counts the squares of `bits`.
pub fn count_squares(bits: u64) -> (n: u32)
    ensures
        n == count(bits),
        n <= 64,
{
    let mut rest: u64 = bits;
    let mut n: u32 = 0;
    proof {
        lemma_sum_bounds(bits, unit_weight(), 64, 0, 1);
        lemma_sum_bounds(rest, unit_weight(), 64, 0, 1);
    }
    while rest != 0
        invariant
            n + sum_over(rest, unit_weight()) == sum_over(bits, unit_weight()),
            0 <= sum_over(rest, unit_weight()),
            sum_over(bits, unit_weight()) <= 64,
        decreases rest,
    {
        proof {
            lemma_without_lowest(rest);
            lemma_sum_without(
                rest,
                without_lowest(rest),
                u64_trailing_zeros(rest) as int,
                unit_weight(),
                64,
            );
            lemma_sum_bounds(without_lowest(rest), unit_weight(), 64, 0, 1);
            assert(rest & ((rest - 1) as u64) < rest) by (bit_vector)
                requires
                    rest != 0,
            ;
        }
        rest = rest & (rest - 1);
        n = n + 1;
    }
    proof {
        lemma_sum_empty(unit_weight(), 64);
    }
    n
}

/// Adds up the entries of `table` at the squares of `bits`.
pub fn weighted_sum(bits: u64, table: &[i32; 64]) -> (total: i32)
    requires
        within_limit(table@),
    ensures
        total == sum_over(bits, table_weight(table@)),
{
    let ghost weight = table_weight(table@);
    let mut rest: u64 = bits;
    let mut total: i32 = 0;
    proof {
        lemma_sum_bounds(bits, weight, 64, -WEIGHT_LIMIT as int, WEIGHT_LIMIT as int);
        lemma_sum_bounds(rest, weight, 64, -WEIGHT_LIMIT as int, WEIGHT_LIMIT as int);
    }
    while rest != 0
        invariant
            weight == table_weight(table@),
            within_limit(table@),
            total + sum_over(rest, weight) == sum_over(bits, weight),
            -64 * WEIGHT_LIMIT <= sum_over(rest, weight) <= 64 * WEIGHT_LIMIT,
            -64 * WEIGHT_LIMIT <= sum_over(bits, weight) <= 64 * WEIGHT_LIMIT,
        decreases rest,
    {
        let square: u32 = rest.trailing_zeros();
        proof {
            lemma_without_lowest(rest);
            lemma_sum_without(rest, without_lowest(rest), square as int, weight, 64);
            lemma_sum_bounds(
                without_lowest(rest),
                weight,
                64,
                -WEIGHT_LIMIT as int,
                WEIGHT_LIMIT as int,
            );
            assert(rest & ((rest - 1) as u64) < rest) by (bit_vector)
                requires
                    rest != 0,
            ;
        }
        rest = rest & (rest - 1);
        total = total + table[square as usize];
    }
    proof {
        lemma_sum_empty(weight, 64);
    }
    total
}


/// The square on the same file as `i` whose rank is counted from the other
/// side of the board.
pub open spec fn mirror_square(i: int) -> int {
    i + 56 - 16 * (i / 8)
}

/// The weight that gives each square what `weight` gives its mirror image.
pub open spec fn mirrored_weight(weight: spec_fn(int) -> int) -> spec_fn(int) -> int {
    |i: int| weight(mirror_square(i))
}

/// The set of the mirror images of the squares of `bits`: rank 1 and rank 8
/// change places, rank 2 and rank 7, and so on.
pub open spec fn flipped(bits: u64) -> u64 {
    (bits << 56) | ((bits << 40) & 0x00ff_0000_0000_0000) | ((bits << 24) & 0x0000_ff00_0000_0000)
        | ((bits << 8) & 0x0000_00ff_0000_0000) | ((bits >> 8) & 0x0000_0000_ff00_0000) | ((bits
        >> 24) & 0x0000_0000_00ff_0000) | ((bits >> 40) & 0x0000_0000_0000_ff00) | (bits >> 56)
}

/// Mirrors a set of squares along the rank axis.
pub fn flip_vertical(bits: u64) -> (r: u64)
    ensures
        r == flipped(bits),
{
    (bits << 56) | ((bits << 40) & 0x00ff_0000_0000_0000) | ((bits << 24) & 0x0000_ff00_0000_0000)
        | ((bits << 8) & 0x0000_00ff_0000_0000) | ((bits >> 8) & 0x0000_0000_ff00_0000) | ((bits
        >> 24) & 0x0000_0000_00ff_0000) | ((bits >> 40) & 0x0000_0000_0000_ff00) | (bits >> 56)
}

/// A square belongs to the flipped set exactly when its mirror image belongs
/// to the set.
pub proof fn lemma_flipped_member(bits: u64, i: int)
    requires
        0 <= i < 64,
    ensures
        0 <= mirror_square(i) < 64,
        mirror_square(mirror_square(i)) == i,
        has_square(flipped(bits), i) <==> has_square(bits, mirror_square(i)),
{
    let iu = i as u64;
    let mu = mirror_square(i) as u64;
    assert(mu == iu ^ 56) by (bit_vector)
        requires
            iu < 64,
            mu == iu + 56 - 16 * (iu / 8),
    ;
    assert(((flipped(bits) >> iu) & 1 == 1) <==> ((bits >> mu) & 1 == 1)) by (bit_vector)
        requires
            iu < 64,
            mu == iu ^ 56,
    ;
}

/// Flipping is an involution and commutes with intersection.
pub proof fn lemma_flipped_algebra(a: u64, b: u64)
    ensures
        flipped(flipped(a)) == a,
        flipped(a & b) == flipped(a) & flipped(b),
{
    assert(flipped(flipped(a)) == a) by (bit_vector);
    assert(flipped(a & b) == flipped(a) & flipped(b)) by (bit_vector);
}

/// What square `i` adds to a sum over `bits`.
pub open spec fn term(bits: u64, weight: spec_fn(int) -> int, i: int) -> int {
    if has_square(bits, i) {
        weight(i)
    } else {
        0
    }
}

/// What a square adds to a sum over the flipped set, its mirror image adds
/// to the sum over the set under the mirrored weight.
proof fn lemma_flipped_term(bits: u64, weight: spec_fn(int) -> int, rank: int, file: int)
    requires
        0 <= rank < 8,
        0 <= file < 8,
    ensures
        term(flipped(bits), weight, 8 * rank + file) == term(
            bits,
            mirrored_weight(weight),
            8 * (7 - rank) + file,
        ),
{
    let i = 8 * rank + file;
    let m = 8 * (7 - rank) + file;
    assert(i / 8 == rank && m / 8 == 7 - rank);
    assert(mirror_square(i) == m && mirror_square(m) == i);
    lemma_flipped_member(bits, i);
}

/// One rank's share of a sum: the eight terms above `base`.
proof fn lemma_sum_rank(bits: u64, weight: spec_fn(int) -> int, base: int)
    requires
        0 <= base,
    ensures
        sum_below(bits, weight, (base + 8) as nat) == sum_below(bits, weight, base as nat) + term(
            bits,
            weight,
            base,
        ) + term(bits, weight, base + 1) + term(bits, weight, base + 2) + term(
            bits,
            weight,
            base + 3,
        ) + term(bits, weight, base + 4) + term(bits, weight, base + 5) + term(
            bits,
            weight,
            base + 6,
        ) + term(bits, weight, base + 7),
{
    reveal_with_fuel(sum_below, 9);
}

/// The lowest `ranks` ranks of the flipped set sum to what the highest
/// `ranks` ranks of the set sum to under the mirrored weight.
proof fn lemma_flipped_ranks(bits: u64, weight: spec_fn(int) -> int, ranks: nat)
    requires
        ranks <= 8,
    ensures
        sum_below(flipped(bits), weight, 8 * ranks) + sum_below(
            bits,
            mirrored_weight(weight),
            (64 - 8 * ranks) as nat,
        ) == sum_below(bits, mirrored_weight(weight), 64),
    decreases ranks,
{
    if ranks > 0 {
        let done = (ranks - 1) as nat;
        let low: int = 8 * (ranks - 1);
        let high: int = 64 - 8 * ranks;
        lemma_flipped_ranks(bits, weight, done);
        lemma_sum_rank(flipped(bits), weight, low);
        lemma_sum_rank(bits, mirrored_weight(weight), high);
        lemma_flipped_term(bits, weight, ranks - 1, 0);
        lemma_flipped_term(bits, weight, ranks - 1, 1);
        lemma_flipped_term(bits, weight, ranks - 1, 2);
        lemma_flipped_term(bits, weight, ranks - 1, 3);
        lemma_flipped_term(bits, weight, ranks - 1, 4);
        lemma_flipped_term(bits, weight, ranks - 1, 5);
        lemma_flipped_term(bits, weight, ranks - 1, 6);
        lemma_flipped_term(bits, weight, ranks - 1, 7);
        assert(low + 8 == 8 * ranks);
        assert(high + 8 == 64 - 8 * done);
    }
}

/// Flipping a set keeps its size.
pub proof fn lemma_flipped_count(bits: u64)
    ensures
        count(flipped(bits)) == count(bits),
{
    lemma_flipped_ranks(bits, unit_weight(), 8);
    lemma_sum_agree(bits, mirrored_weight(unit_weight()), unit_weight(), 64);
}

/// Summing a twice mirrored weight is summing the weight.
pub proof fn lemma_mirrored_twice(bits: u64, weight: spec_fn(int) -> int)
    ensures
        sum_over(bits, mirrored_weight(mirrored_weight(weight))) == sum_over(bits, weight),
{
    assert forall|i: int| 0 <= i < 64 implies #[trigger] (mirrored_weight(
        mirrored_weight(weight),
    ))(i) == weight(i) by {
        assert(mirror_square(mirror_square(i)) == i);
    }
    lemma_sum_agree(bits, mirrored_weight(mirrored_weight(weight)), weight, 64);
}

/// Summing a weight over the flipped set is summing the mirrored weight over
/// the set.
pub proof fn lemma_flipped_sum(bits: u64, weight: spec_fn(int) -> int)
    ensures
        sum_over(flipped(bits), weight) == sum_over(bits, mirrored_weight(weight)),
{
    lemma_flipped_ranks(bits, weight, 8);
}

} // verus!
