//! Bit-level model of the 64-bit board columns.
//!
//! A column stores row `y` of the playfield in bit `y`.  Everything the board
//! and the collision field state about themselves is phrased over [`nth_bit`],
//! and this module proves the handful of bit-vector facts that connect the
//! executable shifts and masks to that model.
use vstd::prelude::*;

verus! {

/// True iff bit `i` of `v` is set (meaningful for `i < 64`).
pub open spec fn nth_bit(v: u64, i: u64) -> bool {
    (v >> i) & 1u64 == 1u64
}

/// Mask with the lowest `k` bits set (`k < 64`).
pub open spec fn low_mask(k: u64) -> u64 {
    ((1u64 << k) - 1) as u64
}

/// Bit `i` of a disjunction is the disjunction of the bits.
pub proof fn lemma_bit_or()
    by (bit_vector)
    ensures
        forall|a: u64, b: u64, i: u64|
            i < 64 ==> (#[trigger] nth_bit(a | b, i)) == (nth_bit(a, i) || nth_bit(b, i)),
{
}

/// Bit `i` of a conjunction is the conjunction of the bits.
pub proof fn lemma_bit_and()
    by (bit_vector)
    ensures
        forall|a: u64, b: u64, i: u64|
            i < 64 ==> (#[trigger] nth_bit(a & b, i)) == (nth_bit(a, i) && nth_bit(b, i)),
{
}

/// Bit `i` of a complement is the negated bit.
pub proof fn lemma_bit_not()
    by (bit_vector)
    ensures
        forall|a: u64, i: u64| i < 64 ==> (#[trigger] nth_bit(!a, i)) == !nth_bit(a, i),
{
}

/// The low mask has exactly its lowest `k` bits set.
pub proof fn lemma_bit_low_mask()
    by (bit_vector)
    ensures
        forall|k: u64, i: u64|
            k < 64 && i < 64 ==> (#[trigger] nth_bit(low_mask(k), i)) == (i < k),
{
}

/// Shifting left by `s` moves bit `i - s` to bit `i`.
pub proof fn lemma_bit_shl()
    by (bit_vector)
    ensures
        forall|a: u64, s: u64, i: u64|
            s < 64 && i < 64 ==> (#[trigger] nth_bit(a << s, i)) == (i >= s && nth_bit(
                a,
                (i - s) as u64,
            )),
{
}

/// Shifting right by `s` moves bit `i + s` to bit `i`.
pub proof fn lemma_bit_shr()
    by (bit_vector)
    ensures
        forall|a: u64, s: u64, i: u64|
            s < 64 && i < 64 ==> (#[trigger] nth_bit(a >> s, i)) == (i + s < 64 && nth_bit(
                a,
                (i + s) as u64,
            )),
{
}

/// The collision-field building block: bit `i` of `!(!c << d)` is set exactly
/// when `i` lies under the shift or the corresponding source bit is set.
pub proof fn lemma_bit_build_term()
    by (bit_vector)
    ensures
        forall|c: u64, d: u64, i: u64|
            d < 64 && i < 64 ==> (#[trigger] nth_bit(!((!c) << d), i)) == (i < d || nth_bit(
                c,
                (i - d) as u64,
            )),
{
}

/// Bit `i` of the constant one, and testing one bit with a mask.
pub proof fn lemma_bit_one()
    by (bit_vector)
    ensures
        forall|i: u64| i < 64 ==> (#[trigger] nth_bit(1u64, i)) == (i == 0),
        forall|v: u64, s: u64| s < 64 ==> ((#[trigger] (v & (1u64 << s))) == 0) == !nth_bit(v, s),
{
}

/// Bits of the constants zero and all-ones, and shifting by or of zero.
pub proof fn lemma_bit_zero()
    by (bit_vector)
    ensures
        forall|i: u64| i < 64 ==> !(#[trigger] nth_bit(0u64, i)),
        forall|i: u64| i < 64 ==> (#[trigger] nth_bit(!0u64, i)),
        forall|c: u64| (#[trigger] (c >> 0u64)) == c,
        forall|c: u64| (#[trigger] (c << 0u64)) == c,
        forall|c: u64| (#[trigger] (c | 0u64)) == c,
        forall|k: u64| k < 64 ==> (#[trigger] (0u64 >> k)) == 0,
        forall|c: u64| c >> 40 == 0 ==> (#[trigger] (c & low_mask(40))) == c,
{
}

/// Walking a nonzero value upward always meets a set bit.
pub proof fn lemma_shr_nonzero()
    by (bit_vector)
    ensures
        forall|m: u64, i: u64|
            i < 63 && (#[trigger] (m >> i)) != 0 && !nth_bit(m, i) ==> (m >> ((i + 1) as u64))
                != 0,
        forall|m: u64| (#[trigger] (m >> 63u64)) != 0 ==> nth_bit(m, 63),
{
}

/// A value with no bits at or above `k` has every such bit clear.
pub proof fn lemma_high_bits_zero()
    by (bit_vector)
    ensures
        forall|v: u64, k: u64, i: u64|
            k < 64 && k <= i && i < 64 && (#[trigger] (v >> k)) == 0 ==> !(#[trigger] nth_bit(
                v,
                i,
            )),
{
}

/// Bounds are preserved by disjunction, conjunction and masking.
pub proof fn lemma_bound_ops()
    by (bit_vector)
    ensures
        forall|k: u64| k < 64 ==> (#[trigger] (1u64 << k)) >= 1,
        forall|a: u64, b: u64, k: u64|
            k < 64 && a >> k == 0 && b >> k == 0 ==> (#[trigger] ((a | b) >> k)) == 0,
        forall|a: u64, b: u64, k: u64|
            k < 64 && a >> k == 0 ==> (#[trigger] ((a & b) >> k)) == 0 && ((b & a) >> k) == 0,
        forall|a: u64, b: u64, k: u64|
            k < 64 && b >> k == 0 ==> (#[trigger] ((a & b) >> k)) == 0,
        forall|j: u64, k: u64| j <= k && k < 64 ==> (#[trigger] (low_mask(j) >> k)) == 0,
        forall|y: u64, k: u64| y < k && k < 64 ==> (#[trigger] ((1u64 << y) >> k)) == 0,
{
}

/// Removing one row keeps the column inside the 40 usable bits.
pub proof fn lemma_bound_remove_row()
    by (bit_vector)
    ensures
        forall|c: u64, y: u64|
            y < 40 && c >> 40 == 0 ==> (#[trigger] (((c & low_mask(y)) | ((c >> (y + 1)) << y))
                >> 40)) == 0,
{
}

/// Index (plus one) of the highest set bit of `c` below `k`; zero if none.
pub open spec fn height_below(c: u64, k: nat) -> nat
    decreases k,
{
    if k == 0 {
        0
    } else if nth_bit(c, (k - 1) as u64) {
        k
    } else {
        height_below(c, (k - 1) as nat)
    }
}

/// Number of set bits of `c` below `k`.
pub open spec fn ones_below(c: u64, k: nat) -> nat
    decreases k,
{
    if k == 0 {
        0
    } else {
        ones_below(c, (k - 1) as nat) + if nth_bit(c, (k - 1) as u64) {
            1nat
        } else {
            0nat
        }
    }
}

/// Least index in `[j, k)` with a set bit of `c`; `k` if none.
pub open spec fn lowest_set_from(c: u64, j: nat, k: nat) -> nat
    decreases k - j,
{
    if j >= k {
        k
    } else if nth_bit(c, j as u64) {
        j
    } else {
        lowest_set_from(c, j + 1, k)
    }
}

/// Height of a column: one plus the index of its highest set bit, zero when empty.
#[verifier::loop_isolation(false)]
pub fn col_height(c: u64) -> (r: usize)
    ensures
        r == height_below(c, 64),
        r <= 64,
{
    let mut k: usize = 64;
    while k > 0 && (c >> ((k - 1) as u64)) & 1u64 != 1u64
        invariant
            k <= 64,
            height_below(c, 64) == height_below(c, k as nat),
        decreases k,
    {
        assert(height_below(c, k as nat) == height_below(c, (k - 1) as nat));
        k = k - 1;
    }
    assert(height_below(c, k as nat) == k);
    k
}

/// Number of set bits of `c` below `k`.
#[verifier::loop_isolation(false)]
pub fn count_ones_below(c: u64, k: usize) -> (r: usize)
    requires
        k <= 64,
    ensures
        r == ones_below(c, k as nat),
{
    let mut r: usize = 0;
    let mut i: usize = 0;
    while i < k
        invariant
            i <= k <= 64,
            r <= i,
            r == ones_below(c, i as nat),
        decreases k - i,
    {
        if (c >> (i as u64)) & 1u64 == 1u64 {
            r = r + 1;
        }
        assert(ones_below(c, (i + 1) as nat) == ones_below(c, i as nat) + if nth_bit(
            c,
            i as u64,
        ) {
            1nat
        } else {
            0nat
        });
        i = i + 1;
    }
    r
}

/// Least set-bit index of `c` below 64, or 64 when `c` is zero.
#[verifier::loop_isolation(false)]
pub fn lowest_set(c: u64) -> (r: usize)
    ensures
        r == lowest_set_from(c, 0, 64),
        c != 0 ==> r < 64 && nth_bit(c, r as u64),
{
    proof {
        lemma_bit_zero();
        lemma_shr_nonzero();
    }
    let mut i: usize = 0;
    while i < 64 && (c >> (i as u64)) & 1u64 != 1u64
        invariant
            i <= 64,
            lowest_set_from(c, 0, 64) == lowest_set_from(c, i as nat, 64),
            c != 0 ==> (i < 64 ==> c >> (i as u64) != 0),
            c != 0 && i == 64 ==> false,
        decreases 64 - i,
    {
        proof {
            assert(lowest_set_from(c, i as nat, 64) == lowest_set_from(c, (i + 1) as nat, 64));
            if c != 0 {
                if i < 63 {
                    assert(c >> (((i + 1) as usize) as u64) != 0);
                } else {
                    assert(nth_bit(c, 63));
                }
            }
        }
        i = i + 1;
    }
    proof {
        if i < 64 {
            assert(lowest_set_from(c, i as nat, 64) == i);
        }
    }
    i
}

/// A set bit below `k` forces the height up to above it.
pub proof fn lemma_height_ge(c: u64, j: nat, k: nat)
    requires
        j < k,
        nth_bit(c, j as u64),
    ensures
        height_below(c, k) >= j + 1,
    decreases k,
{
    if !nth_bit(c, (k - 1) as u64) {
        lemma_height_ge(c, j, (k - 1) as nat);
    }
}

/// A count of set bits below `k` never exceeds `k`.
pub proof fn lemma_ones_below_le(c: u64, k: nat)
    ensures
        ones_below(c, k) <= k,
    decreases k,
{
    if k > 0 {
        lemma_ones_below_le(c, (k - 1) as nat);
    }
}

} // verus!
