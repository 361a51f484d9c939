//! Damage calculation in fixed-point milli units (1000 = one row of damage).
//!
//! The rules combine a base table over cleared lines and spin, a back-to-back
//! bonus that grows with the natural logarithm, and a combo bonus that is
//! either an additive table or a multiplier.  The logarithm is computed in
//! fixed point by linear interpolation between its values at powers of two;
//! the approximation is deterministic and monotone, which is what the damage
//! laws below rely on.
use vstd::prelude::*;

use vstd::arithmetic::div_mod::lemma_div_is_ordered;
use vstd::arithmetic::div_mod::lemma_div_multiples_vanish;
use vstd::arithmetic::div_mod::lemma_div_pos_is_pos;
use vstd::arithmetic::mul::lemma_mul_inequality;
use crate::bits::lemma_bit_zero;
use crate::data::spec_combo_value;
use crate::data::ComboTable;
use crate::data::Spin;

verus! {

/// `round(1000 * ln(1 + 2^i / 1000))`, clamped to the table ends.
pub open spec fn spec_ln_table(i: int) -> int {
    if i <= 0 {
        1
    } else if i == 1 {
        2
    } else if i == 2 {
        4
    } else if i == 3 {
        8
    } else if i == 4 {
        16
    } else if i == 5 {
        31
    } else if i == 6 {
        62
    } else if i == 7 {
        120
    } else if i == 8 {
        228
    } else if i == 9 {
        413
    } else if i == 10 {
        705
    } else if i == 11 {
        1114
    } else if i == 12 {
        1628
    } else if i == 13 {
        2218
    } else if i == 14 {
        2856
    } else if i == 15 {
        3520
    } else if i == 16 {
        4198
    } else if i == 17 {
        4883
    } else if i == 18 {
        5573
    } else if i == 19 {
        6264
    } else if i == 20 {
        6956
    } else if i == 21 {
        7649
    } else if i == 22 {
        8342
    } else if i == 23 {
        9035
    } else if i == 24 {
        9728
    } else if i == 25 {
        10421
    } else if i == 26 {
        11114
    } else if i == 27 {
        11807
    } else {
        12500
    }
}

/// The table grows with its index.
pub proof fn lemma_table_mono(i: int, j: int)
    requires
        i <= j,
    ensures
        spec_ln_table(i) <= spec_ln_table(j),
{
}

/// Relating right shifts to magnitude.
pub proof fn lemma_shr_value()
    by (bit_vector)
    ensures
        forall|x: u64, k: u64| k < 64 ==> ((#[trigger] (x >> k)) == 0) == (x < (1u64 << k)),
        forall|x1: u64, x2: u64, k: u64|
            k < 64 && x1 <= x2 && (#[trigger] (x2 >> k)) == 0 ==> (#[trigger] (x1 >> k)) == 0,
        forall|x: u64, k1: u64, k2: u64|
            k1 <= k2 && k2 < 64 && (#[trigger] (x >> k1)) == 0 ==> (#[trigger] (x >> k2)) == 0,
        forall|k: u64| k < 64 ==> (#[trigger] (1u64 << k)) >= 1,
        (1u64 << 28u64) == 268435456u64,
{
}

/// Index of the highest set bit of `x`, searched upward from `i`:
/// the smallest `j >= i` with `x >> (j + 1) == 0`, capped at 63.
pub open spec fn spec_ilog2(x: u64, i: nat) -> nat
    decreases 63 - i,
{
    if i >= 63 {
        63
    } else if x >> ((i + 1) as u64) == 0 {
        i
    } else {
        spec_ilog2(x, i + 1)
    }
}

proof fn lemma_ilog2_props(x: u64, i: nat)
    requires
        i <= 63,
        x >> (i as u64) != 0,
    ensures
        i <= spec_ilog2(x, i) <= 63,
        x >> (spec_ilog2(x, i) as u64) != 0,
        spec_ilog2(x, i) < 63 ==> x >> ((spec_ilog2(x, i) + 1) as u64) == 0,
    decreases 63 - i,
{
    if i < 63 && x >> ((i + 1) as u64) != 0 {
        lemma_ilog2_props(x, i + 1);
    }
}

proof fn lemma_ilog2_mono(x1: u64, x2: u64, i: nat)
    requires
        i <= 63,
        x1 <= x2,
        x1 >> (i as u64) != 0,
    ensures
        spec_ilog2(x1, i) <= spec_ilog2(x2, i),
    decreases 63 - i,
{
    lemma_shr_value();
    if i < 63 {
        if x1 >> ((i + 1) as u64) == 0 {
            if x2 >> ((i + 1) as u64) != 0 {
                lemma_ilog2_props(x2, i + 1);
            }
        } else {
            assert(x2 >> ((i + 1) as u64) != 0);
            lemma_ilog2_mono(x1, x2, i + 1);
        }
    }
}

/// Fixed-point natural logarithm of `1 + x/1000`, in millis: linear
/// interpolation of the table between consecutive powers of two.
pub open spec fn spec_ln1p_milli(x: u64) -> int {
    if x == 0 {
        0
    } else {
        let i = spec_ilog2(x, 0);
        let lo = (1u64 << (i as u64)) as int;
        spec_ln_table(i as int) + (x - lo) * (spec_ln_table(i as int + 1) - spec_ln_table(
            i as int,
        )) / lo
    }
}

/// In its segment, the interpolated value stays between the table entries.
pub proof fn lemma_ln1p_bounds(x: u64)
    requires
        0 < x,
        x < 268435456,
    ensures
        spec_ln_table(spec_ilog2(x, 0) as int) <= spec_ln1p_milli(x) <= spec_ln_table(
            spec_ilog2(x, 0) as int + 1,
        ),
        spec_ilog2(x, 0) <= 27,
        0 < spec_ln1p_milli(x) <= 12500,
{
    lemma_shr_value();
    lemma_bit_zero();
    let i = spec_ilog2(x, 0);
    lemma_ilog2_props(x, 0);
    if i >= 28 {
        assert(x >> 28u64 == 0);
        assert(x >> (i as u64) == 0);
        assert(false);
    }
    let lo = (1u64 << (i as u64)) as int;
    let d = spec_ln_table(i as int + 1) - spec_ln_table(i as int);
    assert(x >= lo);
    let iu = i as u64;
    assert(x < 2 * lo) by {
        assert(x < (1u64 << ((i + 1) as u64)));
        assert((1u64 << ((iu + 1) as u64)) == 2 * (1u64 << iu)) by (bit_vector)
            requires
                iu < 63u64,
        ;
    }
    lemma_table_mono(i as int, i as int + 1);
    let t = (x - lo) * d / lo;
    lemma_div_pos_is_pos((x - lo) * d, lo);
    assert((x - lo) * d >= 0) by {
        lemma_mul_inequality(0, x - lo, d);
    }
    assert(t <= d) by {
        lemma_mul_inequality(x - lo, lo - 1, d);
        assert((lo - 1) * d <= d * lo) by {
            assert((lo - 1) * d == lo * d - d) by {
                vstd::arithmetic::mul::lemma_mul_is_distributive_sub_other_way(d, lo, 1);
            }
            assert(lo * d == d * lo) by {
                vstd::arithmetic::mul::lemma_mul_is_commutative(lo, d);
            }
        }
        lemma_div_is_ordered((x - lo) * d, d * lo, lo);
        lemma_div_multiples_vanish(d, lo);
    }
    lemma_table_mono(i as int + 1, 28);
    lemma_table_mono(0, i as int);
}

/// The fixed-point logarithm never decreases.
pub proof fn lemma_ln1p_mono(x1: u64, x2: u64)
    requires
        x1 <= x2,
        x2 < 268435456,
    ensures
        spec_ln1p_milli(x1) <= spec_ln1p_milli(x2),
{
    lemma_shr_value();
    lemma_bit_zero();
    if x1 == 0 {
        if x2 > 0 {
            lemma_ln1p_bounds(x2);
        }
    } else {
        lemma_ln1p_bounds(x1);
        lemma_ln1p_bounds(x2);
        let i1 = spec_ilog2(x1, 0);
        let i2 = spec_ilog2(x2, 0);
        lemma_ilog2_mono(x1, x2, 0);
        if i1 == i2 {
            let lo = (1u64 << (i1 as u64)) as int;
            let d = spec_ln_table(i1 as int + 1) - spec_ln_table(i1 as int);
            lemma_table_mono(i1 as int, i1 as int + 1);
            assert((x1 - lo) * d <= (x2 - lo) * d) by {
                lemma_mul_inequality(x1 - lo, x2 - lo, d);
            }
            lemma_div_is_ordered((x1 - lo) * d, (x2 - lo) * d, lo);
        } else {
            lemma_table_mono(i1 as int + 1, i2 as int);
        }
    }
}

/// Fixed-point natural logarithm of `1 + x/1000`, in millis.
#[verifier::loop_isolation(false)]
pub fn ln1p_milli(x: u64) -> (r: u64)
    requires
        x < 268435456,
    ensures
        r as int == spec_ln1p_milli(x),
        r <= 12500,
{
    proof {
        lemma_shr_value();
        lemma_bit_zero();
    }
    if x == 0 {
        return 0;
    }
    let mut i: usize = 0;
    while i < 63 && (x >> ((i + 1) as u64)) != 0
        invariant
            i <= 63,
            x >> (i as u64) != 0,
            spec_ilog2(x, 0) == spec_ilog2(x, i as nat),
        decreases 63 - i,
    {
        i = i + 1;
    }
    proof {
        assert(spec_ilog2(x, i as nat) == i);
        lemma_ln1p_bounds(x);
    }
    let lo: u64 = 1u64 << (i as u64);
    let vi: u64 = ln_table_at(i);
    let vj: u64 = ln_table_at(i + 1);
    proof {
        lemma_table_mono(i as int, i as int + 1);
        let iu = i as u64;
        assert(x < 2 * lo) by {
            assert((1u64 << ((iu + 1) as u64)) == 2 * (1u64 << iu)) by (bit_vector)
                requires
                    iu < 63u64,
            ;
        }
        assert((x - lo) * (vj - vi) <= lo * 12500) by {
            vstd::arithmetic::mul::lemma_mul_upper_bound(x - lo, lo as int, (vj - vi) as int, 12500)
        }
    }
    let r = vi + (x - lo) * (vj - vi) / lo;
    proof {
        lemma_div_pos_is_pos(((x - lo) * (vj - vi)) as int, lo as int);
        assert(r as int == spec_ln1p_milli(x));
    }
    r
}

/// One table entry (clamped beyond the last index).
fn ln_table_at(i: usize) -> (r: u64)
    ensures
        r as int == spec_ln_table(i as int),
        r <= 12500,
{
    if i == 0 {
        1
    } else if i == 1 {
        2
    } else if i == 2 {
        4
    } else if i == 3 {
        8
    } else if i == 4 {
        16
    } else if i == 5 {
        31
    } else if i == 6 {
        62
    } else if i == 7 {
        120
    } else if i == 8 {
        228
    } else if i == 9 {
        413
    } else if i == 10 {
        705
    } else if i == 11 {
        1114
    } else if i == 12 {
        1628
    } else if i == 13 {
        2218
    } else if i == 14 {
        2856
    } else if i == 15 {
        3520
    } else if i == 16 {
        4198
    } else if i == 17 {
        4883
    } else if i == 18 {
        5573
    } else if i == 19 {
        6264
    } else if i == 20 {
        6956
    } else if i == 21 {
        7649
    } else if i == 22 {
        8342
    } else if i == 23 {
        9035
    } else if i == 24 {
        9728
    } else if i == 25 {
        10421
    } else if i == 26 {
        11114
    } else if i == 27 {
        11807
    } else {
        12500
    }
}

/// Base damage of one placement, in millis.
pub open spec fn spec_base_damage_milli(lines: int, spin: Spin) -> int {
    if lines <= 0 {
        0
    } else if lines == 1 {
        if spin == Spin::Normal {
            2000
        } else {
            0
        }
    } else if lines == 2 {
        if spin == Spin::Normal {
            4000
        } else {
            1000
        }
    } else if lines == 3 {
        if spin == Spin::Normal {
            6000
        } else {
            2000
        }
    } else {
        if spin != Spin::NoSpin {
            10000
        } else {
            4000
        }
    }
}

/// Back-to-back bonus, in millis.
pub open spec fn spec_b2b_bonus_milli(lines: int, b2b: int, chaining: bool) -> int {
    if lines > 0 && b2b > 0 {
        if chaining {
            let l = spec_ln1p_milli((800 * b2b) as u64);
            1000 + (l / 1000) * 1000 + (if b2b > 1 {
                (1000 + l % 1000) / 3
            } else {
                0int
            })
        } else {
            1000
        }
    } else {
        0
    }
}

/// Damage of one placement before the garbage multiplier, in millis.
pub open spec fn spec_damage_milli(
    lines: int,
    spin: Spin,
    b2b: int,
    combo: int,
    t: ComboTable,
    chaining: bool,
) -> int {
    let d0 = spec_base_damage_milli(lines, spin) + spec_b2b_bonus_milli(lines, b2b, chaining);
    if combo > 0 {
        if t == ComboTable::Multiplier {
            let g1 = d0 * (1000 + 250 * combo) / 1000;
            if combo > 1 {
                let l = spec_ln1p_milli((1250 * combo) as u64);
                if l > g1 {
                    l
                } else {
                    g1
                }
            } else {
                g1
            }
        } else {
            d0 + 1000 * spec_combo_value(t, combo - 1)
        }
    } else {
        d0
    }
}

/// Damage of one placement in millis: base table over lines and spin, plus a
/// back-to-back bonus, then the combo rule.
#[verifier::rlimit(100)]
pub fn damage_calc(
    lines: u8,
    spin: Spin,
    b2b: i16,
    combo: i16,
    combo_table: ComboTable,
    b2b_chaining: bool,
) -> (r: u64)
    requires
        lines <= 4,
    ensures
        r as int == spec_damage_milli(
            lines as int,
            spin,
            b2b as int,
            combo as int,
            combo_table,
            b2b_chaining,
        ),
        r <= 400000000,
{
    let mut d: u64 = if lines == 0 {
        0
    } else if lines == 1 {
        if spin == Spin::Normal {
            2000
        } else {
            0
        }
    } else if lines == 2 {
        if spin == Spin::Normal {
            4000
        } else {
            1000
        }
    } else if lines == 3 {
        if spin == Spin::Normal {
            6000
        } else {
            2000
        }
    } else {
        if spin != Spin::NoSpin {
            10000
        } else {
            4000
        }
    };
    if lines > 0 && b2b > 0 {
        if b2b_chaining {
            let l = ln1p_milli(800 * (b2b as u64));
            d = d + 1000 + (l / 1000) * 1000 + (if b2b > 1 {
                (1000 + l % 1000) / 3
            } else {
                0
            });
        } else {
            d = d + 1000;
        }
    }
    if combo > 0 {
        if combo_table == ComboTable::Multiplier {
            proof {
                assert(d * (1000 + 250 * (combo as u64)) <= 24166 * 9191750) by {
                    vstd::arithmetic::mul::lemma_mul_upper_bound(
                        d as int,
                        24166,
                        (1000 + 250 * (combo as u64)) as int,
                        9191750,
                    );
                }
            }
            let g1 = d * (1000 + 250 * (combo as u64)) / 1000;
            if combo > 1 {
                let l = ln1p_milli(1250 * (combo as u64));
                d = if l > g1 {
                    l
                } else {
                    g1
                };
            } else {
                d = g1;
            }
        } else {
            let t = combo_table.get();
            let mut idx: usize = (combo - 1) as usize;
            if idx > t.len() - 1 {
                idx = t.len() - 1;
            }
            d = d + 1000 * (t[idx] as u64);
        }
    }
    d
}

/// The sent damage before bonuses: the milli damage scaled by the garbage
/// multiplier, plus the special bonus, truncated to whole rows.
pub open spec fn spec_base_sent(damage_milli: int, mult_milli: int, special: bool) -> int {
    (damage_milli * mult_milli / 1000 + if special {
        1000int
    } else {
        0int
    }) / 1000
}

/// The charge paid out when a back-to-back run of height `v - 1` above the
/// charge threshold breaks, scaled by the garbage multiplier.
pub open spec fn spec_charge_sent(v: int, mult_milli: int) -> int {
    if v <= 0 {
        0
    } else {
        v * mult_milli / 1000
    }
}

/// Total outgoing damage of one placement before the pending-garbage queue
/// absorbs it.
pub open spec fn spec_outgoing(
    damage_milli: int,
    mult_milli: int,
    special: bool,
    pc: bool,
    pc_send: u16,
    charge: int,
) -> int {
    spec_base_sent(damage_milli, mult_milli, special) + (if pc {
        pc_send as int
    } else {
        0int
    }) + charge
}

/// A perfect clear adds exactly `pc_send` to the outgoing damage, all other
/// inputs equal.
pub proof fn lemma_pc_adds_exactly(
    damage_milli: int,
    mult_milli: int,
    special: bool,
    pc_send: u16,
    charge: int,
)
    ensures
        spec_outgoing(damage_milli, mult_milli, special, true, pc_send, charge) == spec_outgoing(
            damage_milli,
            mult_milli,
            special,
            false,
            pc_send,
            charge,
        ) + pc_send,
{
}

/// Damage never decreases as more lines are cleared, for a fixed spin and no
/// running combo or back-to-back.
pub proof fn lemma_damage_monotone_in_lines(
    l1: int,
    l2: int,
    spin: Spin,
    t: ComboTable,
    chaining: bool,
)
    requires
        0 <= l1 <= l2 <= 4,
    ensures
        spec_damage_milli(l1, spin, 0, 0, t, chaining) <= spec_damage_milli(
            l2,
            spin,
            0,
            0,
            t,
            chaining,
        ),
{
}

/// With the multiplier combo table, damage never decreases as the combo
/// counter grows, for the same lines, spin and back-to-back.
pub proof fn lemma_damage_monotone_in_combo(
    lines: int,
    spin: Spin,
    b2b: int,
    c1: int,
    c2: int,
    chaining: bool,
)
    requires
        0 <= c1 <= c2 <= 32767,
        0 <= lines <= 4,
        b2b <= 32767,
    ensures
        spec_damage_milli(lines, spin, b2b, c1, ComboTable::Multiplier, chaining)
            <= spec_damage_milli(lines, spin, b2b, c2, ComboTable::Multiplier, chaining),
{
    let d0 = spec_base_damage_milli(lines, spin) + spec_b2b_bonus_milli(lines, b2b, chaining);
    assert(d0 >= 0) by {
        if lines > 0 && b2b > 0 && chaining {
            lemma_ln1p_bounds((800 * b2b) as u64);
            assert(spec_ln1p_milli((800 * b2b) as u64) >= 0);
            lemma_div_pos_is_pos(spec_ln1p_milli((800 * b2b) as u64), 1000);
            lemma_div_pos_is_pos(1000 + spec_ln1p_milli((800 * b2b) as u64) % 1000, 3);
        }
    }
    if c2 == 0 {
    } else {
        let g2 = d0 * (1000 + 250 * c2) / 1000;
        assert(d0 * 1000 <= d0 * (1000 + 250 * c2)) by {
            if d0 > 0 {
                vstd::arithmetic::mul::lemma_mul_left_inequality(d0, 1000, 1000 + 250 * c2);
            } else {
                vstd::arithmetic::mul::lemma_mul_by_zero_is_zero(1000);
                vstd::arithmetic::mul::lemma_mul_by_zero_is_zero(1000 + 250 * c2);
            }
        }
        lemma_div_is_ordered(d0 * 1000, d0 * (1000 + 250 * c2), 1000);
        lemma_div_multiples_vanish(d0, 1000);
        assert(d0 <= g2);
        lemma_div_pos_is_pos(d0 * (1000 + 250 * c2), 1000);
        if c1 == 0 {
            if c2 > 1 {
                lemma_ln1p_bounds((1250 * c2) as u64);
            }
        } else {
            let g1 = d0 * (1000 + 250 * c1) / 1000;
            assert(d0 * (1000 + 250 * c1) <= d0 * (1000 + 250 * c2)) by {
                if d0 > 0 {
                    vstd::arithmetic::mul::lemma_mul_left_inequality(
                        d0,
                        1000 + 250 * c1,
                        1000 + 250 * c2,
                    );
                } else {
                    vstd::arithmetic::mul::lemma_mul_by_zero_is_zero(1000 + 250 * c1);
                    vstd::arithmetic::mul::lemma_mul_by_zero_is_zero(1000 + 250 * c2);
                }
            }
            lemma_div_is_ordered(d0 * (1000 + 250 * c1), d0 * (1000 + 250 * c2), 1000);
            if c1 > 1 {
                lemma_ln1p_mono((1250 * c1) as u64, (1250 * c2) as u64);
            }
        }
    }
}

} // verus!
