//! The deterministic piece-queue generator: a Lehmer-style multiplicative
//! congruential generator (multiplier 16807, modulus 2^31 - 1) and the
//! shuffle that draws each bag order from it.
use vstd::prelude::*;

use vstd::arithmetic::div_mod::lemma_multiply_divide_lt;
use vstd::arithmetic::mul::lemma_mul_upper_bound;

verus! {

/// A seed folded into the generator's range: nonzero and below the modulus.
pub open spec fn spec_norm_seed(seed: u64) -> u64 {
    let s = seed % 2147483647;
    if s == 0 {
        2147483646
    } else {
        s
    }
}

/// One generator step.
pub open spec fn spec_rng_next(seed: u64) -> u64 {
    ((16807 * seed) % 2147483647) as u64
}

/// The swap target drawn for a bound of `bound` slots: the next output scaled
/// into `0 .. bound`.
pub open spec fn spec_draw(seed: u64, bound: int) -> int {
    let ns = spec_rng_next(seed);
    let nm1: int = if ns == 0 {
        0
    } else {
        ns - 1
    };
    nm1 * bound / 2147483646
}

/// Fisher–Yates from position `i` down to 1: swap each position with a drawn
/// position at or below it.  Returns the generator seed and the sequence.
#[verifier::opaque]
pub open spec fn spec_shuffle<T>(seed: u64, s: Seq<T>, i: nat) -> (u64, Seq<T>)
    decreases i,
{
    if i < 1 || i >= s.len() {
        (seed, s)
    } else {
        let ns = spec_rng_next(seed);
        let r = spec_draw(seed, i + 1 as int);
        let s2 = s.update(i as int, s[r]).update(r, s[i as int]);
        spec_shuffle(ns, s2, (i - 1) as nat)
    }
}

/// A shuffle never changes the number of elements.
#[verifier::rlimit(100)]
pub proof fn lemma_shuffle_len<T>(seed: u64, s: Seq<T>, i: nat)
    ensures
        spec_shuffle(seed, s, i).1.len() == s.len(),
    decreases i,
{
    reveal(spec_shuffle);
    if 1 <= i < s.len() {
        let ns = spec_rng_next(seed);
        let nm1: int = if ns == 0 {
            0
        } else {
            ns - 1
        };
        let r = spec_draw(seed, i + 1 as int);
        assert(0 <= r < i + 1) by {
            assert(nm1 * (i + 1) >= 0) by {
                lemma_mul_upper_bound(0, nm1, 0, i + 1 as int);
                vstd::arithmetic::mul::lemma_mul_inequality(0, nm1, i + 1 as int);
            }
            vstd::arithmetic::div_mod::lemma_div_pos_is_pos(nm1 * (i + 1 as int), 2147483646);
            assert(nm1 * (i + 1 as int) < 2147483646 * (i + 1 as int)) by {
                vstd::arithmetic::mul::lemma_mul_strict_inequality(
                    nm1,
                    2147483646,
                    i + 1 as int,
                );
            }
            lemma_multiply_divide_lt(nm1 * (i + 1 as int), 2147483646, i + 1 as int);
        }
        let s2 = s.update(i as int, s[r]).update(r, s[i as int]);
        lemma_shuffle_len(ns, s2, (i - 1) as nat);
    }
}

/// The Lehmer generator: its current seed and how many values were drawn.
#[derive(Clone, Copy, Debug)]
pub struct RNG {
    pub seed: u64,
    pub index: usize,
}

impl RNG {
    /// A generator from an arbitrary seed word.
    pub fn new(seed: u64) -> (r: RNG)
        ensures
            r.seed == spec_norm_seed(seed),
            r.index == 0,
            0 < r.seed < 2147483647,
    {
        let mut s = seed % 2147483647;
        if s == 0 {
            s = s + 2147483646;
        }
        RNG { seed: s, index: 0 }
    }

    /// Reset the seed, folding it into range.
    pub fn set_seed(&mut self, value: u64)
        ensures
            final(self).seed == spec_norm_seed(value),
            final(self).index == old(self).index,
            0 < final(self).seed < 2147483647,
    {
        let mut s = value % 2147483647;
        if s == 0 {
            s = s + 2147483646;
        }
        self.seed = s;
    }

    /// Draw the next value.
    pub fn next(&mut self) -> (r: u64)
        requires
            old(self).index < usize::MAX,
            old(self).seed < 2147483647,
        ensures
            final(self).seed == spec_rng_next(old(self).seed),
            final(self).index == old(self).index + 1,
            r == final(self).seed,
            r < 2147483647,
    {
        self.index = self.index + 1;
        proof {
            assert(16807 * old(self).seed <= 16807 * 2147483646) by {
                lemma_mul_upper_bound(16807, 16807, old(self).seed as int, 2147483646);
            }
        }
        self.seed = (16807 * self.seed) % 2147483647;
        self.seed
    }

    /// Fisher–Yates shuffle driven by this generator.
    #[verifier::loop_isolation(false)]
    pub fn shuffle<T: Copy>(&mut self, array: Vec<T>) -> (r: Vec<T>)
        requires
            old(self).seed < 2147483647,
            array@.len() < 4294967295,
            old(self).index + array@.len() <= usize::MAX,
        ensures
            array@.len() == 0 ==> *final(self) == *old(self) && r@ == array@,
            array@.len() > 0 ==> ({
                let sh = spec_shuffle(old(self).seed, array@, (array@.len() - 1) as nat);
                &&& final(self).seed == sh.0
                &&& r@ == sh.1
                &&& final(self).index <= old(self).index + array@.len()
            }),
            final(self).seed < 2147483647,
            r@.len() == array@.len(),
    {
        proof {
            reveal(spec_shuffle);
        }
        if array.is_empty() {
            return array;
        }
        let ghost seed0 = self.seed;
        let ghost s0 = array@;
        let ghost hi = (array@.len() - 1) as nat;
        let mut arr = array;
        let mut i: usize = arr.len() - 1;
        while i >= 1
            invariant
                i < arr@.len(),
                arr@.len() == s0.len(),
                self.seed < 2147483647,
                i <= hi,
                self.index == old(self).index + (hi - i),
                self.index + i <= usize::MAX,
                spec_shuffle(seed0, s0, hi) == spec_shuffle(self.seed, arr@, i as nat),
            decreases i,
        {
            let n = self.next();
            let nm1: u64 = if n == 0 {
                0
            } else {
                n - 1
            };
            proof {
                assert(nm1 * ((i + 1) as u64) <= 2147483646 * 4294967295) by {
                    lemma_mul_upper_bound(nm1 as int, 2147483646, (i + 1) as int, 4294967295);
                }
                assert(nm1 * ((i + 1) as u64) < 2147483646 * ((i + 1) as int)) by {
                    vstd::arithmetic::mul::lemma_mul_strict_inequality(
                        nm1 as int,
                        2147483646,
                        (i + 1) as int,
                    );
                }
                lemma_multiply_divide_lt(nm1 * ((i + 1) as u64), 2147483646, (i + 1) as int);
            }
            let ridx: usize = ((nm1 * ((i as u64) + 1)) / 2147483646) as usize;
            let a: T = arr[i];
            let b: T = arr[ridx];
            let ghost before = arr@;
            arr[i] = b;
            arr[ridx] = a;
            proof {
                reveal(spec_shuffle);
                assert(arr@ =~= before.update(i as int, before[ridx as int]).update(
                    ridx as int,
                    before[i as int],
                ));
            }
            i = i - 1;
        }
        arr
    }
}

} // verus!
