//! The bit-packed board: ten 64-bit columns plus a garbage-height counter.
//!
//! Bit `y` of column `x` is set iff cell `(x, y)` is filled; row 0 is the
//! bottom.  Only the lower [`crate::BOARD_HEIGHT`] rows are ever filled, which
//! is the board's central invariant ([`Board::wf`]).
use vstd::prelude::*;

use crate::bits::count_ones_below;
use crate::bits::col_height;
use crate::bits::height_below;
use crate::bits::lemma_bit_and;
use crate::bits::lemma_bit_low_mask;
use crate::bits::lemma_bit_not;
use crate::bits::lemma_bit_one;
use crate::bits::lemma_bit_or;
use crate::bits::lemma_bit_shl;
use crate::bits::lemma_bit_shr;
use crate::bits::lemma_bit_zero;
use crate::bits::lemma_bound_ops;
use crate::bits::lemma_bound_remove_row;
use crate::bits::lemma_height_ge;
use crate::bits::lemma_high_bits_zero;
use crate::bits::lemma_ones_below_le;
use crate::bits::low_mask;
use crate::bits::lowest_set;
use crate::bits::lowest_set_from;
use crate::bits::nth_bit;
use crate::bits::ones_below;
use crate::BOARD_WIDTH;
use crate::BOARD_HEIGHT;

verus! {

/// Every cell of row `y` of the ten columns is filled.
pub open spec fn seq_row_full(cols: Seq<u64>, y: int) -> bool {
    forall|x: int| 0 <= x < 10 ==> nth_bit(#[trigger] cols[x], y as u64)
}

/// The conjunction of the first `x` columns: a bit is set iff that row is
/// filled in each of them.
#[verifier::opaque]
pub open spec fn seq_and_cols(cols: Seq<u64>, x: int) -> u64
    decreases x,
{
    if x <= 0 {
        !0u64
    } else {
        seq_and_cols(cols, x - 1) & cols[x - 1]
    }
}

/// Mask of the rows in `[from, to]` that are completely filled.
pub open spec fn seq_full_mask(cols: Seq<u64>, from: u64, to: u64) -> u64 {
    seq_and_cols(cols, 10) & (low_mask((to - from + 1) as u64) << from)
}

/// Number of full rows in `[from, to]` below `k`.
pub open spec fn seq_count_full_below(cols: Seq<u64>, from: int, to: int, k: nat) -> nat
    decreases k,
{
    if k == 0 {
        0
    } else {
        seq_count_full_below(cols, from, to, (k - 1) as nat) + if from <= k - 1 <= to
            && seq_row_full(cols, k - 1) {
            1nat
        } else {
            0nat
        }
    }
}

/// Bit `y` of the conjunction of the first `x` columns.
proof fn lemma_and_cols_bit(cols: Seq<u64>, x: int, y: u64)
    requires
        0 <= x <= 10,
        y < 64,
    ensures
        nth_bit(seq_and_cols(cols, x), y) == (forall|j: int|
            0 <= j < x ==> nth_bit(#[trigger] cols[j], y)),
    decreases x,
{
    lemma_bit_and();
    lemma_bit_zero();
    reveal(seq_and_cols);
    if x == 0 {
        assert(seq_and_cols(cols, 0) == !0u64);
        assert(nth_bit(!0u64, y));
    } else {
        lemma_and_cols_bit(cols, x - 1, y);
        assert(seq_and_cols(cols, x) == seq_and_cols(cols, x - 1) & cols[x - 1]);
        assert(nth_bit(seq_and_cols(cols, x), y) == (nth_bit(seq_and_cols(cols, x - 1), y)
            && nth_bit(cols[x - 1], y)));
        if nth_bit(seq_and_cols(cols, x), y) {
            assert forall|j: int| 0 <= j < x implies nth_bit(#[trigger] cols[j], y) by {
                if j < x - 1 {
                    assert(nth_bit(seq_and_cols(cols, x - 1), y));
                } else {
                    assert(nth_bit(cols[x - 1], y));
                }
            }
        } else {
            if forall|j: int| 0 <= j < x ==> nth_bit(#[trigger] cols[j], y) {
                assert(nth_bit(cols[x - 1], y));
                assert forall|j: int| 0 <= j < x - 1 implies nth_bit(#[trigger] cols[j], y) by {
                    assert(nth_bit(cols[j], y));
                }
                assert(false);
            }
        }
    }
}

/// Bit `y` of the full-row mask says exactly that row `y` lies in the window
/// and is full.
pub proof fn lemma_full_mask_bit(cols: Seq<u64>, from: u64, to: u64, y: u64)
    requires
        from <= to < 40,
        y < 64,
    ensures
        nth_bit(seq_full_mask(cols, from, to), y) == (from <= y <= to && seq_row_full(
            cols,
            y as int,
        )),
{
    lemma_bit_and();
    lemma_bit_shl();
    lemma_bit_low_mask();
    lemma_and_cols_bit(cols, 10, y);
    let w = low_mask((to - from + 1) as u64) << from;
    assert(nth_bit(w, y) == (from <= y <= to));
}

/// The count of set bits of the full-row mask equals the count of full rows
/// in the window.
pub proof fn lemma_full_mask_count(cols: Seq<u64>, from: u64, to: u64, k: nat)
    requires
        from <= to < 40,
        k <= 64,
    ensures
        ones_below(seq_full_mask(cols, from, to), k) == seq_count_full_below(
            cols,
            from as int,
            to as int,
            k,
        ),
    decreases k,
{
    if k > 0 {
        lemma_full_mask_count(cols, from, to, (k - 1) as nat);
        lemma_full_mask_bit(cols, from, to, (k - 1) as u64);
    }
}

/// One garbage insertion at column level: every column shifts up by `amt`
/// and every column but `col` gains `amt` filled bottom rows.
pub open spec fn seq_insert_garbage(cols: Seq<u64>, amt: u64, col: int) -> Seq<u64> {
    Seq::new(10, |x: int| ((cols[x] << amt) & low_mask(40)) | (if x == col {
        0u64
    } else {
        low_mask(amt)
    }))
}

/// The playfield: ten bit-packed columns and the height of the garbage zone.
#[derive(Clone, Copy, Debug)]
pub struct Board {
    pub cols: [u64; BOARD_WIDTH],
    pub garbage: u8,
}

impl Board {
    /// Column `x` of the board.
    pub open spec fn col(self, x: int) -> u64 {
        self.cols@[x]
    }

    /// Well-formed: no filled cell at or above row 40, garbage height in range.
    pub open spec fn wf(self) -> bool {
        &&& forall|x: int| 0 <= x < 10 ==> (#[trigger] self.col(x)) >> 40 == 0
        &&& self.garbage <= 40
    }

    /// Cell `(x, y)` is filled (meaningful for in-range coordinates).
    pub open spec fn occ(self, x: int, y: int) -> bool {
        nth_bit(self.col(x), y as u64)
    }

    /// Cell test with out-of-range coordinates counting as solid.
    pub open spec fn occ_ext(self, x: int, y: int) -> bool {
        if 0 <= x < 10 && 0 <= y < 40 {
            self.occ(x, y)
        } else {
            true
        }
    }

    /// Column view used by the collision field: columns off the board are
    /// solid at every height (`0 <= y < 64`).
    pub open spec fn solid(self, x: int, y: int) -> bool {
        if 0 <= x < 10 {
            nth_bit(self.col(x), y as u64)
        } else {
            true
        }
    }

    /// Every cell of row `y` is filled.
    pub open spec fn row_full(self, y: int) -> bool {
        seq_row_full(self.cols@, y)
    }

    /// The empty board.
    pub fn new() -> (r: Board)
        ensures
            r.wf(),
            r.garbage == 0,
            forall|x: int, y: int| 0 <= x < 10 && 0 <= y < 40 ==> !r.occ(x, y),
    {
        let r = Board { cols: [0u64, 0u64, 0u64, 0u64, 0u64, 0u64, 0u64, 0u64, 0u64, 0u64], garbage: 0 };
        proof {
            lemma_bit_zero();
            assert forall|x: int| 0 <= x < 10 implies (#[trigger] r.col(x)) == 0u64 by {
            }
        }
        r
    }

    /// Fill cell `(x, y)`.
    pub fn set(&mut self, x: usize, y: usize)
        requires
            old(self).wf(),
            x < 10,
            y < 40,
        ensures
            final(self).wf(),
            final(self).garbage == old(self).garbage,
            final(self).occ(x as int, y as int),
            forall|i: int, j: int|
                0 <= i < 10 && 0 <= j < 40 && !(i == x && j == y) ==> final(self).occ(i, j) == old(
                    self,
                ).occ(i, j),
            final(self).cols@ == old(self).cols@.update(
                x as int,
                old(self).cols@[x as int] | (1u64 << (y as u64)),
            ),
    {
        proof {
            lemma_bit_or();
            lemma_bit_shl();
            lemma_bit_one();
            lemma_bound_ops();
            assert(old(self).col(x as int) == old(self).cols@[x as int]);
        }
        let c0: u64 = self.cols[x];
        let v: u64 = c0 | (1u64 << (y as u64));
        proof {
            assert((1u64 << (y as u64)) >> 40u64 == 0);
            assert(v >> 40u64 == 0);
            assert(nth_bit(v, y as u64));
            assert forall|ju: u64| ju < 64 && ju != y implies #[trigger] nth_bit(v, ju) == nth_bit(
                c0,
                ju,
            ) by {
            }
        }
        self.cols[x] = v;
        proof {
            assert forall|i: int| 0 <= i < 10 implies (#[trigger] self.col(i)) >> 40 == 0 by {
                if i != x {
                    assert(self.col(i) == old(self).col(i));
                }
            }
        }
    }

    /// True iff `(x, y)` is outside the board or filled.
    pub fn is_occupied(&self, x: i8, y: i8) -> (r: bool)
        requires
            self.wf(),
        ensures
            r == self.occ_ext(x as int, y as int),
    {
        if x < 0 || x >= 10 || y < 0 || y >= 40 {
            return true;
        }
        (self.cols[x as usize] >> (y as u64)) & 1u64 == 1u64
    }

    /// True iff the bottom row is completely empty — the usual quick test for
    /// a perfect clear, since a non-empty board always rests on row 0 or is
    /// detected by the caller before floating cells can appear.
    #[verifier::loop_isolation(false)]
    pub fn is_pc(&self) -> (r: bool)
        requires
            self.wf(),
        ensures
            r == forall|x: int| 0 <= x < 10 ==> !self.occ(x, 0),
    {
        proof {
            lemma_bit_zero();
        }
        let mut x: usize = 0;
        while x < 10
            invariant
                x <= 10,
                self.wf(),
                forall|i: int| 0 <= i < x ==> !self.occ(i, 0),
            decreases 10 - x,
        {
            if (self.cols[x] >> 0u64) & 1u64 == 1u64 {
                proof {
                    assert(self.occ(x as int, 0));
                }
                return false;
            }
            x = x + 1;
        }
        true
    }

    /// Shift every column up by `amount` and fill the new bottom rows in every
    /// column but `column`; the garbage height grows, clamped at the board top.
    #[verifier::loop_isolation(false)]
    pub fn insert_garbage(&mut self, amount: u8, column: u8)
        requires
            old(self).wf(),
            column < 10,
            amount <= 40,
        ensures
            final(self).wf(),
            amount == 0 ==> *final(self) == *old(self),
            amount > 0 ==> final(self).garbage == if old(self).garbage + amount <= 40 {
                old(self).garbage + amount
            } else {
                40
            },
            forall|x: int, y: int|
                0 <= x < 10 && 0 <= y < 40 ==> final(self).occ(x, y) == (if y < amount {
                    x != column
                } else {
                    old(self).occ(x, y - amount)
                }),
            amount > 0 ==> final(self).cols@ == seq_insert_garbage(
                old(self).cols@,
                amount as u64,
                column as int,
            ),
    {
        proof {
            lemma_bit_or();
            lemma_bit_and();
            lemma_bit_shl();
            lemma_bit_low_mask();
            lemma_bit_zero();
            lemma_bound_ops();
            lemma_high_bits_zero();
        }
        if amount == 0 {
            return ;
        }
        proof {
            lemma_bound_ops();
        }
        let g: u8 = self.garbage + amount;
        self.garbage = if g > 40 {
            40
        } else {
            g
        };
        let all_mask: u64 = ((1u64 << 40u64) - 1) as u64;
        let bottom_mask: u64 = ((1u64 << (amount as u64)) - 1) as u64;
        assert(all_mask == low_mask(40));
        assert(bottom_mask == low_mask(amount as u64));
        let ghost b0 = *old(self);
        let mut x: usize = 0;
        while x < 10
            invariant
                x <= 10,
                amount <= 40,
                0 < amount,
                column < 10,
                all_mask == low_mask(40),
                bottom_mask == low_mask(amount as u64),
                self.garbage == if b0.garbage + amount <= 40 {
                    (b0.garbage + amount) as u8
                } else {
                    40u8
                },
                forall|i: int| x <= i < 10 ==> (#[trigger] self.col(i)) == b0.col(i),
                forall|i: int| 0 <= i < x ==> (#[trigger] self.col(i)) >> 40 == 0,
                forall|i: int, y: int|
                    0 <= i < x && 0 <= y < 40 ==> self.occ(i, y) == (if y < amount {
                        i != column
                    } else {
                        b0.occ(i, y - amount)
                    }),
                forall|i: int|
                    0 <= i < x ==> (#[trigger] self.col(i)) == seq_insert_garbage(
                        b0.cols@,
                        amount as u64,
                        column as int,
                    )[i],
                b0.wf(),
            decreases 10 - x,
        {
            proof {
                assert(self.col(x as int) == b0.col(x as int));
            }
            let shifted: u64 = (self.cols[x] << (amount as u64)) & all_mask;
            let updated: u64 = if x == column as usize {
                shifted
            } else {
                shifted | bottom_mask
            };
            proof {
                assert(all_mask >> 40u64 == 0);
                assert(shifted >> 40u64 == 0);
                assert(bottom_mask >> 40u64 == 0);
                assert(updated >> 40u64 == 0);
                assert forall|yu: u64| yu < 40 implies #[trigger] nth_bit(updated, yu) == (if (
                yu as int) < amount {
                    x != column
                } else {
                    b0.occ(x as int, yu - amount)
                }) by {
                    assert(nth_bit(shifted, yu) == (yu >= amount && nth_bit(
                        b0.col(x as int),
                        (yu - amount as u64) as u64,
                    )));
                }
            }
            let ghost prev = *self;
            self.cols[x] = updated;
            proof {
                assert(self.cols@ == prev.cols@.update(x as int, updated));
                assert forall|i: int|
                    0 <= i < 10 && i != x implies #[trigger] self.col(i) == prev.col(i) by {}
                assert(self.col(x as int) == updated);
                assert(updated == seq_insert_garbage(b0.cols@, amount as u64, column as int)[
                    x as int]);
                assert forall|i: int, y: int|
                    0 <= i < x + 1 && 0 <= y < 40 implies self.occ(i, y) == (if y < amount {
                        i != column
                    } else {
                        b0.occ(i, y - amount)
                    }) by {
                    if i == x {
                        assert(nth_bit(updated, y as u64) == (if y < amount {
                            x != column
                        } else {
                            b0.occ(x as int, y - amount)
                        }));
                    } else {
                        assert(self.col(i) == prev.col(i));
                        assert(prev.occ(i, y) == (if y < amount {
                            i != column
                        } else {
                            b0.occ(i, y - amount)
                        }));
                    }
                }
            }
            x = x + 1;
        }
        proof {
            assert forall|i: int|
                0 <= i < 10 implies self.cols@[i] == seq_insert_garbage(
                b0.cols@,
                amount as u64,
                column as int,
            )[i] by {
                assert(self.col(i) == seq_insert_garbage(b0.cols@, amount as u64, column as int)[
                    i]);
            }
            assert(self.cols@ =~= seq_insert_garbage(b0.cols@, amount as u64, column as int));
        }
    }

    /// One row removed from a column: bits above `y` move down one step.
    pub open spec fn remove_row(c: u64, y: u64) -> u64 {
        (c & low_mask(y)) | ((c >> ((y + 1) as u64)) << y)
    }

    /// All rows of `mask` below `k` removed from a column, highest first.
    pub open spec fn remove_rows(c: u64, mask: u64, k: nat) -> u64
        decreases k,
    {
        if k == 0 {
            c
        } else {
            let c1 = if nth_bit(mask, (k - 1) as u64) {
                Board::remove_row(c, (k - 1) as u64)
            } else {
                c
            };
            Board::remove_rows(c1, mask, (k - 1) as nat)
        }
    }

    /// Number of full rows in `[from, to]` below `k`.
    pub open spec fn count_full_below(self, from: int, to: int, k: nat) -> nat {
        seq_count_full_below(self.cols@, from, to, k)
    }

    /// A column stays within the 40 usable bits when rows are removed.
    proof fn lemma_remove_rows_bound(c: u64, mask: u64, k: nat)
        requires
            c >> 40 == 0,
            k <= 40,
        ensures
            Board::remove_rows(c, mask, k) >> 40 == 0,
        decreases k,
    {
        if k > 0 {
            if nth_bit(mask, (k - 1) as u64) {
                lemma_bound_remove_row();
                Board::lemma_remove_rows_bound(
                    Board::remove_row(c, (k - 1) as u64),
                    mask,
                    (k - 1) as nat,
                );
            } else {
                Board::lemma_remove_rows_bound(c, mask, (k - 1) as nat);
            }
        }
    }

    /// Remove every completely filled row whose index lies in `[from, to]`;
    /// rows above a removed row shift down.  Returns how many rows were
    /// removed and whether any of them was a garbage row; the garbage height
    /// drops by the number of removed garbage rows.
    #[verifier::loop_isolation(false)]
    pub fn clear(&mut self, from: u8, to: u8) -> (r: (u8, bool))
        requires
            old(self).wf(),
            from <= to < 40,
        ensures
            final(self).wf(),
            r.0 == ones_below(seq_full_mask(old(self).cols@, from as u64, to as u64), 40),
            r.0 == old(self).count_full_below(from as int, to as int, 40),
            final(self).cols@.len() == 10,
            final(self).garbage == old(self).garbage - ones_below(
                seq_full_mask(old(self).cols@, from as u64, to as u64),
                old(self).garbage as nat,
            ),
            r.1 == (ones_below(
                seq_full_mask(old(self).cols@, from as u64, to as u64),
                old(self).garbage as nat,
            ) > 0),
            forall|x: int|
                0 <= x < 10 ==> final(self).col(x) == Board::remove_rows(
                    old(self).col(x),
                    seq_full_mask(old(self).cols@, from as u64, to as u64),
                    40,
                ),
    {
        let ghost b0 = *old(self);
        proof {
            reveal(seq_and_cols);
        }
        let mut m: u64 = !0u64;
        let mut x: usize = 0;
        while x < 10
            invariant
                x <= 10,
                *self == b0,
                m == seq_and_cols(b0.cols@, x as int),
            decreases 10 - x,
        {
            proof {
                reveal(seq_and_cols);
                assert(self.col(x as int) == b0.col(x as int));
            }
            m = m & self.cols[x];
            x = x + 1;
        }
        proof {
            lemma_bound_ops();
        }
        let span: u64 = (to - from + 1) as u64;
        let window: u64 = (((1u64 << span) - 1) as u64) << (from as u64);
        let mask: u64 = m & window;
        proof {
            assert(mask == seq_full_mask(b0.cols@, from as u64, to as u64));
            lemma_full_mask_count(b0.cols@, from as u64, to as u64, 40);
            lemma_ones_below_le(mask, b0.garbage as nat);
            lemma_ones_below_le(mask, 40);
        }
        let cleared: usize = count_ones_below(mask, 40);
        let gcleared: usize = count_ones_below(mask, self.garbage as usize);
        let mut x: usize = 0;
        while x < 10
            invariant
                x <= 10,
                b0.wf(),
                self.garbage == b0.garbage,
                forall|i: int| x <= i < 10 ==> (#[trigger] self.col(i)) == b0.col(i),
                forall|i: int|
                    0 <= i < x ==> (#[trigger] self.col(i)) == Board::remove_rows(
                        b0.col(i),
                        mask,
                        40,
                    ) && self.col(i) >> 40 == 0,
            decreases 10 - x,
        {
            proof {
                assert(self.col(x as int) == b0.col(x as int));
            }
            let mut c: u64 = self.cols[x];
            let mut k: usize = 40;
            while k > 0
                invariant
                    k <= 40,
                    Board::remove_rows(b0.col(x as int), mask, 40) == Board::remove_rows(
                        c,
                        mask,
                        k as nat,
                    ),
                decreases k,
            {
                let y: u64 = (k - 1) as u64;
                if (mask >> y) & 1u64 == 1u64 {
                    let c2: u64 = (c & (((1u64 << y) - 1) as u64)) | ((c >> (y + 1)) << y);
                    assert(c2 == Board::remove_row(c, y));
                    c = c2;
                }
                k = k - 1;
            }
            proof {
                Board::lemma_remove_rows_bound(b0.col(x as int), mask, 40);
            }
            let ghost prev = *self;
            self.cols[x] = c;
            proof {
                assert(self.cols@ == prev.cols@.update(x as int, c));
                assert forall|i: int|
                    0 <= i < 10 && i != x implies #[trigger] self.col(i) == prev.col(i) by {}
                assert(self.col(x as int) == c);
            }
            x = x + 1;
        }
        let ghost prev2 = *self;
        self.garbage = self.garbage - (gcleared as u8);
        proof {
            assert(self.cols@ == prev2.cols@);
            assert forall|x: int|
                0 <= x < 10 implies (#[trigger] self.col(x)) == Board::remove_rows(
                b0.col(x),
                mask,
                40,
            ) && self.col(x) >> 40 == 0 by {
                assert(prev2.col(x) == Board::remove_rows(b0.col(x), mask, 40));
                assert(prev2.col(x) >> 40 == 0);
            }
        }
        ((cleared as u8), gcleared > 0)
    }
}

impl Board {
    /// Height of column `x`: one plus its highest filled row, zero when empty.
    pub open spec fn spec_col_height(self, x: int) -> nat {
        height_below(self.col(x), 64)
    }

    /// Greatest column height over `lo <= x < hi`.
    pub open spec fn spec_max_in(self, lo: int, hi: int) -> nat
        decreases hi - lo,
    {
        if hi <= lo {
            0
        } else {
            let m = self.spec_max_in(lo, hi - 1);
            let h = self.spec_col_height(hi - 1);
            if h > m {
                h
            } else {
                m
            }
        }
    }

    /// Empty cells of column `x` strictly below its top filled cell.
    pub open spec fn spec_col_holes(self, x: int) -> int {
        self.spec_col_height(x) - ones_below(self.col(x), self.spec_col_height(x))
    }

    /// Sum of `spec_col_holes` over the first `x` columns.
    pub open spec fn spec_holes_upto(self, x: int) -> int
        decreases x,
    {
        if x <= 0 {
            0
        } else {
            self.spec_holes_upto(x - 1) + self.spec_col_holes(x - 1)
        }
    }

    /// Sum of height differences between adjacent columns up to column `x`.
    pub open spec fn spec_uneven_upto(self, x: int) -> int
        decreases x,
    {
        if x <= 1 {
            0
        } else {
            let a = self.spec_col_height(x - 2);
            let b = self.spec_col_height(x - 1);
            self.spec_uneven_upto(x - 1) + if a >= b {
                a - b
            } else {
                b - a
            }
        }
    }

    /// A hole of column `x` at row `y` whose side neighbours are both filled
    /// (cells off the board count as filled).
    pub open spec fn spec_covered_at(self, x: int, y: int) -> bool {
        &&& y < self.spec_col_height(x)
        &&& !self.occ(x, y)
        &&& (x == 0 || self.occ(x - 1, y))
        &&& (x == 9 || self.occ(x + 1, y))
    }

    /// Number of covered holes of column `x` below row `k`.
    pub open spec fn spec_covered_below(self, x: int, k: nat) -> int
        decreases k,
    {
        if k == 0 {
            0
        } else {
            self.spec_covered_below(x, (k - 1) as nat) + if self.spec_covered_at(x, k - 1) {
                1int
            } else {
                0int
            }
        }
    }

    /// Sum of covered holes over the first `x` columns.
    pub open spec fn spec_covered_upto(self, x: int) -> int
        decreases x,
    {
        if x <= 0 {
            0
        } else {
            self.spec_covered_upto(x - 1) + self.spec_covered_below(x - 1, 64)
        }
    }

    /// Overstack depth of one column: the distance from the top filled cell
    /// down to just above the lowest cell that is empty with a filled cell
    /// directly above it; zero when the column has no such cell.
    pub open spec fn spec_col_overstack(self, x: int) -> int {
        let c = self.col(x);
        let m = !c & (c >> 1u64);
        if m == 0 {
            0
        } else {
            self.spec_col_height(x) - 2 - lowest_set_from(m, 0, 64)
        }
    }

    /// Sum of overstack depths over the first `x` columns.
    pub open spec fn spec_overstack_upto(self, x: int) -> int
        decreases x,
    {
        if x <= 0 {
            0
        } else {
            self.spec_overstack_upto(x - 1) + self.spec_col_overstack(x - 1)
        }
    }

    /// Column `x` sits at least three rows below both side neighbours (a
    /// missing neighbour counts as height 63).
    pub open spec fn spec_is_well(self, x: int) -> bool {
        let l: int = if x == 0 {
            63
        } else {
            self.spec_col_height(x - 1) as int
        };
        let r: int = if x == 9 {
            63
        } else {
            self.spec_col_height(x + 1) as int
        };
        let m = if l <= r {
            l
        } else {
            r
        };
        m >= self.spec_col_height(x) + 3
    }

    /// Number of wells among the first `x` columns.
    pub open spec fn spec_wells_upto(self, x: int) -> int
        decreases x,
    {
        if x <= 0 {
            0
        } else {
            self.spec_wells_upto(x - 1) + if self.spec_is_well(x - 1) {
                1int
            } else {
                0int
            }
        }
    }

    /// Greatest column height of the whole board.
    #[verifier::loop_isolation(false)]
    pub fn max_height(&self) -> (r: i32)
        ensures
            r == self.spec_max_in(0, 10),
            0 <= r <= 64,
    {
        let mut m: usize = 0;
        let mut x: usize = 0;
        while x < 10
            invariant
                x <= 10,
                m == self.spec_max_in(0, x as int),
                m <= 64,
            decreases 10 - x,
        {
            proof {
                assert(self.col(x as int) == self.cols@[x as int]);
            }
            let h = col_height(self.cols[x]);
            if h > m {
                m = h;
            }
            x = x + 1;
        }
        m as i32
    }

    /// Height above the half-way row of the playfield.
    pub fn upper_half_height(&self) -> (r: i32)
        ensures
            r == if self.spec_max_in(0, 10) >= 20 {
                self.spec_max_in(0, 10) - 20
            } else {
                0int
            },
    {
        let m = self.max_height();
        if m >= 20 {
            m - 20
        } else {
            0
        }
    }

    /// Height above the upper-quarter row of the playfield.
    pub fn upper_quarter_height(&self) -> (r: i32)
        ensures
            r == if self.spec_max_in(0, 10) >= 30 {
                self.spec_max_in(0, 10) - 30
            } else {
                0int
            },
    {
        let m = self.max_height();
        if m >= 30 {
            m - 30
        } else {
            0
        }
    }

    /// Greatest column height over the middle four columns.
    #[verifier::loop_isolation(false)]
    pub fn center_height(&self) -> (r: i32)
        ensures
            r == self.spec_max_in(3, 7),
            0 <= r <= 64,
    {
        let mut m: usize = 0;
        let mut x: usize = 3;
        while x < 7
            invariant
                3 <= x <= 7,
                m == self.spec_max_in(3, x as int),
                m <= 64,
            decreases 7 - x,
        {
            proof {
                assert(self.col(x as int) == self.cols@[x as int]);
            }
            let h = col_height(self.cols[x]);
            if h > m {
                m = h;
            }
            x = x + 1;
        }
        m as i32
    }

    /// Total number of empty cells lying below the top of their column.
    #[verifier::loop_isolation(false)]
    pub fn count_holes(&self) -> (r: i32)
        ensures
            r == self.spec_holes_upto(10),
            0 <= r <= 640,
    {
        let mut t: usize = 0;
        let mut x: usize = 0;
        while x < 10
            invariant
                x <= 10,
                t == self.spec_holes_upto(x as int),
                t <= 64 * x,
            decreases 10 - x,
        {
            proof {
                assert(self.col(x as int) == self.cols@[x as int]);
                lemma_ones_below_le(self.col(x as int), self.spec_col_height(x as int));
            }
            let c = self.cols[x];
            let h = col_height(c);
            let ones = count_ones_below(c, h);
            t = t + (h - ones);
            x = x + 1;
        }
        t as i32
    }

    /// Sum of absolute height differences between adjacent columns.
    #[verifier::loop_isolation(false)]
    pub fn unevenness(&self) -> (r: i32)
        ensures
            r == self.spec_uneven_upto(10),
            0 <= r <= 640,
    {
        proof {
            assert(self.col(0) == self.cols@[0]);
        }
        let mut last = col_height(self.cols[0]);
        let mut t: usize = 0;
        let mut x: usize = 1;
        while x < 10
            invariant
                1 <= x <= 10,
                last == self.spec_col_height(x as int - 1),
                last <= 64,
                t == self.spec_uneven_upto(x as int),
                t <= 64 * x,
            decreases 10 - x,
        {
            proof {
                assert(self.col(x as int) == self.cols@[x as int]);
            }
            let h = col_height(self.cols[x]);
            t = t + if last >= h {
                last - h
            } else {
                h - last
            };
            last = h;
            x = x + 1;
        }
        t as i32
    }

    /// Total number of covered holes: empty below the column top with both
    /// side neighbours filled at that row.
    #[verifier::loop_isolation(false)]
    pub fn covered_holes(&self) -> (r: i32)
        requires
            self.wf(),
        ensures
            r == self.spec_covered_upto(10),
            0 <= r <= 640,
    {
        let mut t: usize = 0;
        let mut x: usize = 0;
        while x < 10
            invariant
                x <= 10,
                self.wf(),
                t == self.spec_covered_upto(x as int),
                t <= 64 * x,
            decreases 10 - x,
        {
            proof {
                assert(self.col(x as int) == self.cols@[x as int]);
                if x > 0 {
                    assert(self.col(x as int - 1) == self.cols@[x as int - 1]);
                }
                if x < 9 {
                    assert(self.col(x as int + 1) == self.cols@[x as int + 1]);
                }
            }
            let c = self.cols[x];
            let h = col_height(c);
            let mut cnt: usize = 0;
            let mut y: usize = 0;
            while y < 64
                invariant
                    y <= 64,
                    h == self.spec_col_height(x as int),
                    cnt == self.spec_covered_below(x as int, y as nat),
                    cnt <= y,
                decreases 64 - y,
            {
                let below_top = y < h;
                let open_here = (c >> (y as u64)) & 1u64 != 1u64;
                let left = x == 0 || (self.cols[x - 1] >> (y as u64)) & 1u64 == 1u64;
                let right = x == 9 || (self.cols[x + 1] >> (y as u64)) & 1u64 == 1u64;
                if below_top && open_here && left && right {
                    cnt = cnt + 1;
                }
                proof {
                    assert(self.spec_covered_at(x as int, y as int) == (below_top && open_here
                        && left && right));
                }
                y = y + 1;
            }
            t = t + cnt;
            x = x + 1;
        }
        t as i32
    }

    /// Total overstack depth over all columns.
    #[verifier::loop_isolation(false)]
    pub fn overstacked_holes(&self) -> (r: i32)
        requires
            self.wf(),
        ensures
            r == self.spec_overstack_upto(10),
            -640 <= r <= 640,
    {
        proof {
            lemma_bit_and();
            lemma_bit_not();
            lemma_bit_shr();
        }
        let mut t: i32 = 0;
        let mut x: usize = 0;
        while x < 10
            invariant
                x <= 10,
                self.wf(),
                t == self.spec_overstack_upto(x as int),
                -640 <= t <= 64 * x,
            decreases 10 - x,
        {
            proof {
                assert(self.col(x as int) == self.cols@[x as int]);
            }
            let c = self.cols[x];
            let m = !c & (c >> 1u64);
            if m != 0 {
                let h = col_height(c);
                let low = lowest_set(m);
                proof {
                    assert(nth_bit(c >> 1u64, low as u64));
                    assert(nth_bit(c, (low + 1) as u64));
                    lemma_height_ge(c, (low + 1) as nat, 64);
                }
                t = t + (h as i32 - 2 - low as i32);
            }
            x = x + 1;
        }
        t
    }

    /// Number of columns at least three rows below both neighbours, minus one,
    /// clamped at zero.
    #[verifier::loop_isolation(false)]
    pub fn wells(&self) -> (r: i32)
        ensures
            r == if self.spec_wells_upto(10) >= 1 {
                self.spec_wells_upto(10) - 1
            } else {
                0int
            },
            0 <= r <= 10,
    {
        let mut heights: [usize; 10] = [0, 0, 0, 0, 0, 0, 0, 0, 0, 0];
        let mut x: usize = 0;
        while x < 10
            invariant
                x <= 10,
                forall|i: int|
                    0 <= i < x ==> (#[trigger] heights@[i]) == self.spec_col_height(i) && heights@[i]
                        <= 64,
            decreases 10 - x,
        {
            proof {
                assert(self.col(x as int) == self.cols@[x as int]);
            }
            let h = col_height(self.cols[x]);
            heights[x] = h;
            x = x + 1;
        }
        let mut cnt: usize = 0;
        let mut x: usize = 0;
        while x < 10
            invariant
                x <= 10,
                cnt <= x,
                cnt == self.spec_wells_upto(x as int),
                forall|i: int|
                    0 <= i < 10 ==> (#[trigger] heights@[i]) == self.spec_col_height(i) && heights@[i]
                        <= 64,
            decreases 10 - x,
        {
            let l: usize = if x == 0 {
                63
            } else {
                heights[x - 1]
            };
            let r: usize = if x == 9 {
                63
            } else {
                heights[x + 1]
            };
            let m = if l <= r {
                l
            } else {
                r
            };
            if m >= heights[x] + 3 {
                cnt = cnt + 1;
            }
            x = x + 1;
        }
        if cnt >= 1 {
            (cnt - 1) as i32
        } else {
            0
        }
    }
}

} // verus!
