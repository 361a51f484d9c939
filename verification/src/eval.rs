//! The board heuristic: a weighted integer sum of the board statistics, the
//! recent clears, the damage sent, and the running counters, on a fixed
//! thousandfold scale.
use vstd::prelude::*;

use crate::damage::ln1p_milli;
use crate::damage::spec_ln1p_milli;
use crate::data::Spin;
use crate::game::Game;

verus! {

/// The tunable weights of the heuristic.
#[derive(Clone, Copy, Debug)]
pub struct Weights {
    pub height: i32,
    pub upper_half_height: i32,
    pub upper_quarter_height: i32,
    pub center_height: i32,
    pub extra_wells: i32,
    pub clear_none: i32,
    pub clear_mini: i32,
    pub clear_normal: i32,
    pub sent: i32,
    pub b2b: i32,
    pub combo: i32,
    pub holes: i32,
    pub covered_holes: i32,
    pub overstacked_holes: i32,
    pub unevenness: i32,
}

impl Weights {
    /// Every weight fits comfortably inside the heuristic's integer budget.
    pub open spec fn wf(self) -> bool {
        &&& -1000000000 <= self.height <= 1000000000
        &&& -1000000000 <= self.upper_half_height <= 1000000000
        &&& -1000000000 <= self.upper_quarter_height <= 1000000000
        &&& -1000000000 <= self.center_height <= 1000000000
        &&& -1000000000 <= self.extra_wells <= 1000000000
        &&& -1000000000 <= self.clear_none <= 1000000000
        &&& -1000000000 <= self.clear_mini <= 1000000000
        &&& -1000000000 <= self.clear_normal <= 1000000000
        &&& -1000000000 <= self.sent <= 1000000000
        &&& -1000000000 <= self.b2b <= 1000000000
        &&& -1000000000 <= self.combo <= 1000000000
        &&& -1000000000 <= self.holes <= 1000000000
        &&& -1000000000 <= self.covered_holes <= 1000000000
        &&& -1000000000 <= self.overstacked_holes <= 1000000000
        &&& -1000000000 <= self.unevenness <= 1000000000
    }
}

/// The hand-tuned default weights.
pub fn weights_handtuned() -> (r: Weights)
    ensures
        r.wf(),
        r.height == -50 && r.upper_half_height == -150 && r.upper_quarter_height == -300
            && r.center_height == -100 && r.extra_wells == -100 && r.clear_none == -70
            && r.clear_mini == 70 && r.clear_normal == 140 && r.sent == 0 && r.b2b == 80 && r.combo
            == 30 && r.holes == -15 && r.covered_holes == -60 && r.overstacked_holes == -40
            && r.unevenness == -30,
{
    Weights {
        height: -50,
        upper_half_height: -150,
        upper_quarter_height: -300,
        center_height: -100,
        extra_wells: -100,
        clear_none: -70,
        clear_mini: 70,
        clear_normal: 140,
        sent: 0,
        b2b: 80,
        combo: 30,
        holes: -15,
        covered_holes: -60,
        overstacked_holes: -40,
        unevenness: -30,
    }
}

/// Weight of one recorded clear.
pub open spec fn spec_clear_weight(w: Weights, c: Spin) -> int {
    match c {
        Spin::NoSpin => w.clear_none as int,
        Spin::Mini => w.clear_mini as int,
        Spin::Normal => w.clear_normal as int,
    }
}

/// Score contribution of the recent clears.
pub open spec fn spec_clears_score(w: Weights, clears: Seq<Spin>) -> int
    decreases clears.len(),
{
    if clears.len() == 0 {
        0
    } else {
        spec_clears_score(w, clears.drop_last()) + spec_clear_weight(w, clears.last()) * 1000
    }
}

/// The heuristic value of a game state: a weighted sum of the board
/// statistics, recent clears, sent damage, and counters, scaled by 1000.
pub open spec fn spec_eval(w: Weights, g: Game, sent: u16, clears: Seq<Spin>) -> int {
    let b = g.board;
    (b.spec_max_in(0, 10) * 1000 / 20) * w.height + (
    (if b.spec_max_in(0, 10) >= 20 {
        b.spec_max_in(0, 10) - 20
    } else {
        0int
    }) * 1000 / 10) * w.upper_half_height + ((if b.spec_max_in(0, 10) >= 30 {
        b.spec_max_in(0, 10) - 30
    } else {
        0int
    }) * 1000 / 5) * w.upper_quarter_height + (b.spec_max_in(3, 7) * 1000 / 20) * w.center_height
        + ((if b.spec_wells_upto(10) >= 1 {
        b.spec_wells_upto(10) - 1
    } else {
        0int
    }) * 1000) * w.extra_wells + spec_clears_score(w, clears) + (sent * 1000) * w.sent
        + spec_ln1p_milli(((g.b2b + 1) * 1000) as u64) * w.b2b + ((g.combo + 1) * 1000) * w.combo
        + (b.spec_holes_upto(10) * 1000) * w.holes + (b.spec_covered_upto(10) * 1000)
        * w.covered_holes + (b.spec_overstack_upto(10) * 1000) * w.overstacked_holes + (
    b.spec_uneven_upto(10) * 1000) * w.unevenness
}

/// One weighted term of the heuristic, with its overflow budget.
fn weighted(v: i64, w: i32) -> (r: i64)
    requires
        -70000000 <= v <= 70000000,
        -1000000000 <= w <= 1000000000,
    ensures
        r == v * w,
        -70000000000000000 <= r <= 70000000000000000,
{
    proof {
        let a: int = if v >= 0 {
            v as int
        } else {
            -(v as int)
        };
        let b: int = if w >= 0 {
            w as int
        } else {
            -(w as int)
        };
        vstd::arithmetic::mul::lemma_mul_upper_bound(a, 70000000, b, 1000000000);
        vstd::arithmetic::mul::lemma_mul_unary_negation(v as int, w as int);
        vstd::arithmetic::mul::lemma_mul_unary_negation(-(v as int), w as int);
        assert(a * b == v * w || a * b == -(v * w));
    }
    v * (w as i64)
}

/// The heuristic value of a game state.
#[verifier::loop_isolation(false)]
pub fn eval(weights: &Weights, state: &Game, sent: u16, clears: Vec<Spin>) -> (r: i64)
    requires
        state.board.wf(),
        weights.wf(),
        state.b2b >= -1,
        clears@.len() <= 4096,
    ensures
        r == spec_eval(*weights, *state, sent, clears@),
{
    let b = &state.board;
    let mut score: i64 = 0;
    score = score + weighted((b.max_height() as i64) * 1000 / 20, weights.height);
    score = score + weighted(
        (b.upper_half_height() as i64) * 1000 / 10,
        weights.upper_half_height,
    );
    score = score + weighted(
        (b.upper_quarter_height() as i64) * 1000 / 5,
        weights.upper_quarter_height,
    );
    score = score + weighted((b.center_height() as i64) * 1000 / 20, weights.center_height);
    score = score + weighted((b.wells() as i64) * 1000, weights.extra_wells);
    let mut i: usize = 0;
    let mut cscore: i64 = 0;
    while i < clears.len()
        invariant
            i <= clears@.len(),
            cscore == spec_clears_score(*weights, clears@.subrange(0, i as int)),
            -1000000000000 * (i as int) <= cscore <= 1000000000000 * (i as int),
        decreases clears@.len() - i,
    {
        let cw: i32 = match clears[i] {
            Spin::NoSpin => weights.clear_none,
            Spin::Mini => weights.clear_mini,
            Spin::Normal => weights.clear_normal,
        };
        let t = weighted(1000, cw);
        proof {
            assert(clears@.subrange(0, i as int + 1).drop_last() =~= clears@.subrange(0, i as int));
            assert(clears@.subrange(0, i as int + 1).last() == clears@[i as int]);
            assert(-1000000000000 <= t <= 1000000000000);
            vstd::arithmetic::mul::lemma_mul_inequality(i as int, 4096, 1000000000000);
            vstd::arithmetic::mul::lemma_mul_is_distributive_add_other_way(
                1000000000000,
                i as int,
                1,
            );
        }
        cscore = cscore + t;
        i = i + 1;
    }
    proof {
        assert(clears@.subrange(0, clears@.len() as int) =~= clears@);
        vstd::arithmetic::mul::lemma_mul_inequality(clears@.len() as int, 4096, 1000000000000);
    }
    score = score + cscore;
    score = score + weighted((sent as i64) * 1000, weights.sent);
    let lnarg: u64 = ((state.b2b as i64 + 1) * 1000) as u64;
    let lnv = ln1p_milli(lnarg);
    score = score + weighted(lnv as i64, weights.b2b);
    score = score + weighted((state.combo as i64 + 1) * 1000, weights.combo);
    score = score + weighted((b.count_holes() as i64) * 1000, weights.holes);
    score = score + weighted((b.covered_holes() as i64) * 1000, weights.covered_holes);
    score = score + weighted((b.overstacked_holes() as i64) * 1000, weights.overstacked_holes);
    score = score + weighted((b.unevenness() as i64) * 1000, weights.unevenness);
    score
}

} // verus!
