use vstd::prelude::*;

verus! {

/// Bit `i` of `x` (counted from the least significant bit).
pub open spec fn bit_set(x: u32, i: u32) -> bool {
    (x >> i) & 1u32 == 1u32
}

/// Number of set bits of `x` among its `n` lowest bits.
pub open spec fn count_bits_below(x: u32, n: nat) -> nat
    decreases n,
{
    if n == 0 {
        0
    } else {
        count_bits_below(x, (n - 1) as nat) + if bit_set(x, (n - 1) as u32) {
            1nat
        } else {
            0nat
        }
    }
}

/// Number of set bits of `x`.
pub open spec fn popcount(x: u32) -> nat {
    count_bits_below(x, 32)
}

/// Counts the set bits of `x`, as `u32::count_ones` does.
pub fn count_ones(x: u32) -> (r: u32)
    ensures
        r == popcount(x),
{
    let mut c: u32 = 0;
    let mut i: u32 = 0;
    while i < 32
        invariant
            i <= 32,
            c == count_bits_below(x, i as nat),
            c <= i,
        decreases 32 - i,
    {
        if (x >> i) & 1 == 1 {
            c = c + 1;
        }
        i = i + 1;
    }
    c
}


/// Position of the highest set bit among the `n` lowest bits of `x`
/// (0 when none of them is set).
pub open spec fn top_bit_below(x: u32, n: nat) -> u32
    decreases n,
{
    if n == 0 {
        0
    } else if bit_set(x, (n - 1) as u32) {
        (n - 1) as u32
    } else {
        top_bit_below(x, (n - 1) as nat)
    }
}

/// Position of the highest set bit of `x`: the base-2 logarithm of `x`,
/// rounded down, for `x > 0`.
pub open spec fn top_bit(x: u32) -> u32 {
    top_bit_below(x, 32)
}

/// Base-2 logarithm of `x`, rounded down, as `u32::ilog2` computes it.
pub fn ilog2(x: u32) -> (r: u32)
    requires
        x != 0,
    ensures
        r == top_bit(x),
        r < 32,
        bit_set(x, r),
        forall|j: u32| r < j < 32 ==> !bit_set(x, j),
{
    let mut h: u32 = 0;
    let mut i: u32 = 0;
    while i < 32
        invariant
            i <= 32,
            h == top_bit_below(x, i as nat),
            h < 32,
            i > 0 && (exists|j: u32| j < i && bit_set(x, j)) ==> bit_set(x, h) && h < i,
            forall|j: u32| h < j < i ==> !bit_set(x, j),
        decreases 32 - i,
    {
        if (x >> i) & 1 == 1 {
            h = i;
        }
        i = i + 1;
    }
    proof {
        lemma_nonzero_has_bit(x);
    }
    h
}

/// A nonzero value has a set bit.
pub proof fn lemma_nonzero_has_bit(x: u32)
    requires
        x != 0,
    ensures
        exists|j: u32| j < 32 && bit_set(x, j),
    decreases x,
{
    if !bit_set(x, 0) {
        let y = x >> 1;
        assert(y != 0 && y < x && !bit_set(y, 31)) by (bit_vector)
            requires
                x != 0,
                (x >> 0u32) & 1u32 != 1u32,
                y == x >> 1,
        ;
        lemma_nonzero_has_bit(y);
        let j = choose|j: u32| j < 32 && bit_set(y, j);
        assert(bit_set(x, (j + 1) as u32)) by (bit_vector)
            requires
                j < 31,
                y == x >> 1,
                (y >> j) & 1u32 == 1u32,
        ;
    }
}

/// The part mask whose bit `i` is set exactly when `sides[i]` holds.
pub open spec fn is_mask_of(mask: u32, sides: Seq<bool>) -> bool {
    forall|j: u32| j < 32 ==> bit_set(mask, j) == (j < sides.len() && sides[j as int])
}

proof fn lemma_add_low_bit(r: u32, i: u32, j: u32)
    by (bit_vector)
    requires
        i < 32,
        j < 32,
        r >> i == 0,
    ensures
        r + (1u32 << i) <= 0xffff_ffff,
        ((r + (1u32 << i)) as u32 >> j) & 1u32 == 1u32 <==> (j == i || (r >> j) & 1u32 == 1u32),
        i + 1 < 32 ==> ((r + (1u32 << i)) as u32) >> add1(i) == 0,
        i + 1 < 32 ==> r >> add1(i) == 0,
{
}

spec fn add1(i: u32) -> u32 {
    (i + 1) as u32
}

/// Builds a part mask from the side tests of the axes: bit `i` is set when
/// `sides[i]` holds, by adding `1 << i` for each such axis.
pub fn mask_from_sides(sides: &Vec<bool>) -> (r: u32)
    requires
        sides.len() <= 32,
    ensures
        is_mask_of(r, sides@),
        r == mask_value(sides@),
{
    let mut r: u32 = 0;
    let mut i: usize = 0;
    assert(forall|j: u32| j < 32 ==> !bit_set(0u32, j)) by (bit_vector);
    assert(0u32 >> 0u32 == 0) by (bit_vector);
    while i < sides.len()
        invariant
            i <= sides.len() <= 32,
            i < 32 ==> r >> (i as u32) == 0,
            forall|j: u32| j < 32 ==> bit_set(r, j) == (j < i && sides@[j as int]),
        decreases sides.len() - i,
    {
        let ii = i as u32;
        proof {
            lemma_add_low_bit(r, ii, 0);
        }
        if sides[i] {
            let old_r = r;
            r = r + (1u32 << ii);
            assert forall|j: u32| j < 32 implies bit_set(r, j) == (j < i + 1 && sides@[j as int]) by {
                lemma_add_low_bit(old_r, ii, j);
                assert(bit_set(old_r, j) == (j < i && sides@[j as int]));
            }
        }
        i = i + 1;
    }
    proof {
        lemma_mask_value(r, sides@);
    }
    r
}

/// Number of sides among the first `n` that hold.
pub open spec fn count_true(sides: Seq<bool>, n: nat) -> nat
    decreases n,
{
    if n == 0 {
        0
    } else {
        count_true(sides, (n - 1) as nat) + if sides[n - 1] {
            1nat
        } else {
            0nat
        }
    }
}

/// The mask built from the side tests has one set bit per side that holds,
/// and agrees with those sides bit by bit.
pub proof fn lemma_mask_of_sides(mask: u32, sides: Seq<bool>)
    requires
        sides.len() <= 32,
        is_mask_of(mask, sides),
    ensures
        popcount(mask) == count_true(sides, sides.len()),
        forall|j: u32| j < sides.len() ==> bit_set(mask, j) == sides[j as int],
{
    lemma_count_mask(mask, sides, sides.len());
    lemma_count_clear_above(mask, sides.len(), 32);
}

proof fn lemma_count_mask(mask: u32, sides: Seq<bool>, n: nat)
    requires
        n <= sides.len() <= 32,
        is_mask_of(mask, sides),
    ensures
        count_bits_below(mask, n) == count_true(sides, n),
    decreases n,
{
    if n > 0 {
        lemma_count_mask(mask, sides, (n - 1) as nat);
        assert(bit_set(mask, (n - 1) as u32) == sides[n - 1]);
    }
}

/// The part mask of the side tests `sides`.
pub open spec fn mask_value(sides: Seq<bool>) -> u32 {
    choose|m: u32| is_mask_of(m, sides)
}

proof fn lemma_shift_step(x: u32, y: u32, k: u32)
    by (bit_vector)
    requires
        0 < k <= 32,
        k < 32 ==> x >> k == y >> k,
        (x >> sub1(k)) & 1u32 == (y >> sub1(k)) & 1u32,
    ensures
        x >> sub1(k) == y >> sub1(k),
{
}

spec fn sub1(k: u32) -> u32 {
    (k - 1) as u32
}

/// Values whose bits agree at position `k` and above (all bits when
/// `k == 0`) agree once shifted right by `k`.
proof fn lemma_high_bits_determine(x: u32, y: u32, k: u32)
    requires
        k <= 32,
        forall|j: u32| k <= j < 32 ==> bit_set(x, j) == bit_set(y, j),
    ensures
        k < 32 ==> x >> k == y >> k,
    decreases 32 - k,
{
    if k < 32 {
        lemma_high_bits_determine(x, y, (k + 1) as u32);
        assert(bit_set(x, k) == bit_set(y, k));
        assert((x >> k) & 1u32 == (y >> k) & 1u32) by (bit_vector)
            requires
                ((x >> k) & 1u32 == 1u32) == ((y >> k) & 1u32 == 1u32),
        ;
        lemma_shift_step(x, y, (k + 1) as u32);
    }
}

/// Values with the same bits are equal.
pub proof fn lemma_bits_determine(x: u32, y: u32)
    requires
        forall|j: u32| j < 32 ==> bit_set(x, j) == bit_set(y, j),
    ensures
        x == y,
{
    lemma_high_bits_determine(x, y, 0);
    assert(x == y) by (bit_vector)
        requires
            x >> 0u32 == y >> 0u32,
    ;
}

/// A mask of given side tests is unique: it is `mask_value` of them.
pub proof fn lemma_mask_value(mask: u32, sides: Seq<bool>)
    requires
        is_mask_of(mask, sides),
    ensures
        mask == mask_value(sides),
{
    let m = mask_value(sides);
    assert(is_mask_of(m, sides));
    lemma_bits_determine(mask, m);
}

/// A mask built from `n` side tests is below `2^n`; for the eight axes of
/// the octahedral mixup, below 256.
pub proof fn lemma_mask_below_256(mask: u32, sides: Seq<bool>)
    requires
        sides.len() <= 8,
        is_mask_of(mask, sides),
    ensures
        mask < 256,
{
    let high = mask >> 8;
    if high != 0 {
        lemma_nonzero_has_bit(high);
        let j = choose|j: u32| j < 32 && bit_set(high, j);
        assert(j < 24 && bit_set(mask, (j + 8) as u32)) by (bit_vector)
            requires
                j < 32,
                high == mask >> 8,
                (high >> j) & 1u32 == 1u32,
        ;
    }
    assert(mask < 256) by (bit_vector)
        requires
            mask >> 8 == 0,
    ;
}

/// Whether bit `i` of `index` agrees with `sides[i]` for every axis `i`.
pub fn matches_sides(index: u32, sides: &Vec<bool>) -> (r: bool)
    requires
        sides.len() <= 32,
    ensures
        r == forall|j: u32| j < sides.len() ==> bit_set(index, j) == sides@[j as int],
{
    let mut i: usize = 0;
    while i < sides.len()
        invariant
            i <= sides.len() <= 32,
            forall|j: u32| j < i ==> bit_set(index, j) == sides@[j as int],
        decreases sides.len() - i,
    {
        let bit = (index >> (i as u32)) & 1 == 1;
        if bit != sides[i] {
            assert(!(bit_set(index, i as u32) == sides@[i as int]));
            return false;
        }
        i = i + 1;
    }
    true
}


/// `x` with its set bit `i` cleared.
pub open spec fn without_bit(x: u32, i: u32) -> u32 {
    (x - (1u32 << i)) as u32
}

proof fn lemma_clear_bit(x: u32, i: u32, j: u32)
    by (bit_vector)
    requires
        i < 32,
        j < 32,
        (x >> i) & 1u32 == 1u32,
    ensures
        x - (1u32 << i) >= 0,
        ((x - (1u32 << i)) as u32 >> j) & 1u32 == 1u32 <==> (j != i && (x >> j) & 1u32 == 1u32),
{
}

/// Properties of the highest set bit among the `n` lowest bits.
pub proof fn lemma_top_bit_below(x: u32, n: nat)
    requires
        n <= 32,
    ensures
        top_bit_below(x, n) < 32,
        forall|j: u32| top_bit_below(x, n) < j < n ==> !bit_set(x, j),
        (exists|j: u32| j < n && bit_set(x, j)) ==> top_bit_below(x, n) < n && bit_set(
            x,
            top_bit_below(x, n),
        ),
    decreases n,
{
    if n > 0 {
        lemma_top_bit_below(x, (n - 1) as nat);
        if !bit_set(x, (n - 1) as u32) {
            if exists|j: u32| j < n && bit_set(x, j) {
                let j = choose|j: u32| j < n && bit_set(x, j);
                assert(j < n - 1);
            }
        }
    }
}

/// The highest set bit of a nonzero value is set, and no bit above it is.
pub proof fn lemma_top_bit(x: u32)
    requires
        x != 0,
    ensures
        top_bit(x) < 32,
        bit_set(x, top_bit(x)),
        forall|j: u32| top_bit(x) < j < 32 ==> !bit_set(x, j),
{
    lemma_nonzero_has_bit(x);
    lemma_top_bit_below(x, 32);
}

/// Bits at positions `n` and above do not change the count below `m >= n`
/// when they are all clear.
proof fn lemma_count_clear_above(x: u32, n: nat, m: nat)
    requires
        n <= m <= 32,
        forall|j: u32| n <= j < m ==> !bit_set(x, j),
    ensures
        count_bits_below(x, m) == count_bits_below(x, n),
    decreases m,
{
    if m > n {
        lemma_count_clear_above(x, n, (m - 1) as nat);
        assert(!bit_set(x, (m - 1) as u32));
    }
}

/// Values whose `n` lowest bits agree have the same count below `n`.
proof fn lemma_count_agree(x: u32, y: u32, n: nat)
    requires
        n <= 32,
        forall|j: u32| j < n ==> bit_set(x, j) == bit_set(y, j),
    ensures
        count_bits_below(x, n) == count_bits_below(y, n),
    decreases n,
{
    if n > 0 {
        lemma_count_agree(x, y, (n - 1) as nat);
        assert(bit_set(x, (n - 1) as u32) == bit_set(y, (n - 1) as u32));
    }
}

/// A zero count below `n` means that none of the `n` lowest bits is set.
proof fn lemma_count_zero(x: u32, n: nat)
    requires
        n <= 32,
        count_bits_below(x, n) == 0,
    ensures
        forall|j: u32| j < n ==> !bit_set(x, j),
    decreases n,
{
    if n > 0 {
        lemma_count_zero(x, (n - 1) as nat);
    }
}

/// A mask with exactly two set bits consists of its highest set bit and the
/// highest set bit of what remains once that one is cleared.
pub proof fn lemma_two_bits(index: u32)
    requires
        popcount(index) == 2,
    ensures
        ({
            let high = top_bit(index);
            let low = top_bit(without_bit(index, high));
            &&& low < high < 32
            &&& index != 0
            &&& without_bit(index, high) != 0
            &&& forall|j: u32| j < 32 ==> (bit_set(index, j) <==> (j == high || j == low))
        }),
{
    if index == 0 {
        assert(forall|j: u32| j < 32 ==> !bit_set(0u32, j)) by (bit_vector);
        lemma_count_clear_above(index, 0, 32);
    }
    lemma_top_bit(index);
    let high = top_bit(index);
    let c = without_bit(index, high);
    assert forall|j: u32| j < 32 implies bit_set(c, j) == (j != high && bit_set(index, j)) by {
        lemma_clear_bit(index, high, j);
    }
    lemma_count_clear_above(index, (high + 1) as nat, 32);
    assert(count_bits_below(index, high as nat) == 1);
    lemma_count_agree(index, c, high as nat);
    lemma_count_clear_above(c, high as nat, 32);
    assert(popcount(c) == 1);
    if c == 0 {
        assert(forall|j: u32| j < 32 ==> !bit_set(0u32, j)) by (bit_vector);
        lemma_count_clear_above(c, 0, 32);
    }
    lemma_top_bit(c);
    let low = top_bit(c);
    assert(low < high);
    lemma_count_clear_above(c, (low + 1) as nat, 32);
    assert(count_bits_below(c, low as nat) == 0);
    lemma_count_zero(c, low as nat);
    lemma_set_bit_nonzero(index, high);
    lemma_set_bit_nonzero(c, low);
}

proof fn lemma_set_bit_nonzero(x: u32, j: u32)
    by (bit_vector)
    requires
        (x >> j) & 1u32 == 1u32,
    ensures
        x != 0,
{
}

/// Shape of a part mask, by its number of set bits.
pub enum MaskShape {
    /// Exactly two bits are set: `high` and `low`, with `low < high`.
    Pair { high: u32, low: u32 },
    /// Exactly four bits are set.
    Quad,
    /// Any other number of set bits.
    Other,
}

/// Classifies a part mask by its number of set bits; for two set bits it
/// finds them as `ilog2(index)` and `ilog2(index - (1 << ilog2(index)))`.
pub fn mask_shape(index: u32) -> (r: MaskShape)
    ensures
        r is Pair <==> popcount(index) == 2,
        r is Quad <==> popcount(index) == 4,
        r matches MaskShape::Pair { high, low } ==> {
            &&& high == top_bit(index)
            &&& low == top_bit(without_bit(index, high))
            &&& low < high < 32
            &&& forall|j: u32| j < 32 ==> (bit_set(index, j) <==> (j == high || j == low))
        },
{
    let n = count_ones(index);
    if n == 2 {
        proof {
            lemma_two_bits(index);
        }
        let high = ilog2(index);
        proof {
            lemma_clear_bit(index, high, 0);
        }
        let rest = index - (1u32 << high);
        let low = ilog2(rest);
        MaskShape::Pair { high, low }
    } else if n == 4 {
        MaskShape::Quad
    } else {
        MaskShape::Other
    }
}

} // verus!
