//! The preview queue: a seven-piece bag drawn in a shuffled order from the
//! deterministic generator, refilled whenever it runs low.
use std::collections::VecDeque;

use vstd::prelude::*;

use crate::data::Mino;
use crate::rng::spec_norm_seed;
use crate::rng::spec_shuffle;
use crate::rng::RNG;

verus! {

broadcast use vstd::std_specs::vecdeque::group_vec_dequeue_axioms;

/// The randomizer families; only the seven-piece bag is defined.
#[derive(Clone, Copy, Debug)]
pub enum Bag {
    Bag7,
}

/// The fixed draw order of one unshuffled bag.
pub open spec fn spec_bag_cycle(b: Bag) -> Seq<Mino> {
    seq![Mino::Z, Mino::L, Mino::O, Mino::S, Mino::I, Mino::J, Mino::T]
}

impl Bag {
    /// One unshuffled bag.
    pub fn get_cycle(&self) -> (r: Vec<Mino>)
        ensures
            r@ == spec_bag_cycle(*self),
    {
        let r: Vec<Mino> = vec![Mino::Z, Mino::L, Mino::O, Mino::S, Mino::I, Mino::J, Mino::T];
        proof {
            assert(r@ =~= spec_bag_cycle(*self));
        }
        r
    }
}

/// One shuffled bag appended to the queue, and the generator seed after it.
pub open spec fn spec_refill_once(seed: u64, q: Seq<Mino>, b: Bag) -> (u64, Seq<Mino>) {
    let sh = spec_shuffle(seed, spec_bag_cycle(b), 6);
    (sh.0, q + sh.1)
}

/// Shuffled bags appended until the queue holds at least `min` pieces.
pub open spec fn spec_refill(seed: u64, q: Seq<Mino>, b: Bag, min: nat) -> (u64, Seq<Mino>)
    decreases (if q.len() < min {
        min - q.len()
    } else {
        0int
    }),
    via spec_refill_decreases
{
    if q.len() >= min {
        (seed, q)
    } else {
        let step = spec_refill_once(seed, q, b);
        spec_refill(step.0, step.1, b, min)
    }
}

#[via_fn]
proof fn spec_refill_decreases(seed: u64, q: Seq<Mino>, b: Bag, min: nat) {
    if q.len() < min {
        crate::rng::lemma_shuffle_len::<Mino>(seed, spec_bag_cycle(b), 6);
        assert(spec_bag_cycle(b).len() == 7);
        assert(spec_refill_once(seed, q, b).1.len() == q.len() + 7);
    }
}

/// The preview queue and the generator that extends it.
#[derive(Clone, Debug)]
pub struct Queue {
    pub bag: Bag,
    pub rng: RNG,
    pub min_size: usize,
    pub queue: VecDeque<Mino>,
}

impl Queue {
    /// Enough pieces queued, the generator seed in range, and room to count
    /// many more draws.
    pub open spec fn wf(self) -> bool {
        &&& self.min_size >= 32
        &&& self.queue@.len() >= self.min_size
        &&& self.rng.seed < 2147483647
        &&& self.rng.index <= 0x1000_0000
    }

    /// A queue seeded from `seed`, holding `initial` and then shuffled bags up
    /// to at least `min_size` pieces.  The two size bounds keep the generator's
    /// draw counter within the budget that [`Queue::wf`] reserves for a
    /// lifetime of refills.
    #[verifier::loop_isolation(false)]
    pub fn new(bag: Bag, seed: u64, min_size: usize, initial: Vec<Mino>) -> (r: Queue)
        requires
            32 <= min_size,
            min_size <= 0x0400_0000,
            initial@.len() <= 0x0400_0000,
        ensures
            r.wf(),
            r.bag == bag,
            r.min_size == min_size,
            ({
                let rf = spec_refill(spec_norm_seed(seed), initial@, bag, min_size as nat);
                r.rng.seed == rf.0 && r.queue@ == rf.1
            }),
    {
        let mut rng = RNG::new(seed);
        let mut queue: VecDeque<Mino> = VecDeque::new();
        let mut i: usize = 0;
        while i < initial.len()
            invariant
                i <= initial@.len(),
                queue@ =~= initial@.subrange(0, i as int),
            decreases initial@.len() - i,
        {
            queue.push_back(initial[i]);
            proof {
                assert(queue@ =~= initial@.subrange(0, i as int + 1));
            }
            i = i + 1;
        }
        proof {
            assert(queue@ =~= initial@);
        }
        let ghost seed1 = rng.seed;
        while queue.len() < min_size
            invariant
                rng.seed < 2147483647,
                rng.index <= queue@.len(),
                queue@.len() <= initial@.len() + min_size + 7,
                spec_refill(seed1, initial@, bag, min_size as nat) == spec_refill(
                    rng.seed,
                    queue@,
                    bag,
                    min_size as nat,
                ),
            decreases (if queue.len() < min_size {
                min_size - queue.len()
            } else {
                0int
            }),
        {
            let cycle = bag.get_cycle();
            proof {
                assert(cycle@.len() == 7);
            }
            let ghost qb = queue@;
            let ghost sb = rng.seed;
            let fresh = rng.shuffle(cycle);
            let mut j: usize = 0;
            while j < fresh.len()
                invariant
                    j <= fresh@.len(),
                    queue@ =~= qb + fresh@.subrange(0, j as int),
                decreases fresh@.len() - j,
            {
                queue.push_back(fresh[j]);
                proof {
                    assert(queue@ =~= qb + fresh@.subrange(0, j as int + 1));
                }
                j = j + 1;
            }
            proof {
                assert(fresh@.subrange(0, 7) =~= fresh@);
                assert(queue@ == spec_refill_once(sb, qb, bag).1);
                assert(queue@.len() == qb.len() + 7);
            }
        }
        Queue { bag, rng, min_size, queue }
    }

    /// Pop the front piece, refilling from the bag if the queue runs low.
    #[verifier::loop_isolation(false)]
    pub fn shift(&mut self) -> (r: Mino)
        requires
            old(self).wf(),
            old(self).rng.index <= 0x0FFF_FFF8,
        ensures
            final(self).wf(),
            final(self).bag == old(self).bag,
            final(self).min_size == old(self).min_size,
            r == old(self).queue@[0],
            ({
                let rf = spec_refill(
                    old(self).rng.seed,
                    old(self).queue@.drop_first(),
                    old(self).bag,
                    old(self).min_size as nat,
                );
                final(self).rng.seed == rf.0 && final(self).queue@ == rf.1
            }),
            final(self).rng.index <= old(self).rng.index + 7,
    {
        let res = match self.queue.pop_front() {
            Some(m) => m,
            None => Mino::I,
        };
        proof {
            assert(self.queue@ =~= old(self).queue@.drop_first());
        }
        let ghost seed1 = self.rng.seed;
        let ghost q1 = self.queue@;
        if self.queue.len() < self.min_size {
            let cycle = self.bag.get_cycle();
            proof {
                assert(cycle@.len() == 7);
            }
            let ghost qb = self.queue@;
            let ghost sb = self.rng.seed;
            let fresh = self.rng.shuffle(cycle);
            let ghost rng_after = self.rng;
            let mut j: usize = 0;
            while j < fresh.len()
                invariant
                    j <= fresh@.len(),
                    self.queue@ =~= qb + fresh@.subrange(0, j as int),
                    self.rng == rng_after,
                    self.bag == old(self).bag,
                    self.min_size == old(self).min_size,
                decreases fresh@.len() - j,
            {
                self.queue.push_back(fresh[j]);
                proof {
                    assert(self.queue@ =~= qb + fresh@.subrange(0, j as int + 1));
                }
                j = j + 1;
            }
            proof {
                assert(fresh@.subrange(0, 7) =~= fresh@);
                assert(self.queue@ == spec_refill_once(sb, qb, self.bag).1);
                assert(self.queue@.len() == qb.len() + 7);
                reveal_with_fuel(spec_refill, 3);
                assert(spec_refill(
                    self.rng.seed,
                    self.queue@,
                    self.bag,
                    self.min_size as nat,
                ) == (self.rng.seed, self.queue@));
                assert(qb.len() < self.min_size);
                assert(spec_refill_once(seed1, qb, self.bag) == (self.rng.seed, self.queue@));
                assert(spec_refill(seed1, q1, self.bag, self.min_size as nat) == (
                self.rng.seed,
                self.queue@,
                ));
            }
        } else {
            proof {
                assert(self.queue@.len() >= self.min_size);
                assert(spec_refill(seed1, q1, self.bag, self.min_size as nat) == (
                self.rng.seed,
                self.queue@,
                ));
            }
        }
        res
    }

    /// The first 32 queued pieces.
    #[verifier::loop_isolation(false)]
    pub fn get_front_32(&self) -> (r: [Mino; 32])
        requires
            self.wf(),
        ensures
            forall|i: int| 0 <= i < 32 ==> r@[i] == self.queue@[i],
    {
        let mut res: [Mino; 32] = [Mino::I;32];
        let mut i: usize = 0;
        while i < 32
            invariant
                i <= 32,
                self.wf(),
                forall|j: int| 0 <= j < i ==> res@[j] == self.queue@[j],
            decreases 32 - i,
        {
            let m = *(&self.queue[i]);
            res[i] = m;
            i = i + 1;
        }
        res
    }
}

} // verus!
