//! The falling-piece state machine: one game's full state and the moves that
//! drive it — translations, soft drop, auto-shift, rotation with kicks, spin
//! classification, hold, and the hard drop that locks a piece.
use vstd::prelude::*;

use crate::bits::nth_bit;
use crate::bits::ones_below;
use crate::board::seq_full_mask;
use crate::board::seq_insert_garbage;
use crate::board::Board;
use crate::damage::damage_calc;
use crate::damage::spec_charge_sent;
use crate::damage::spec_damage_milli;
use crate::damage::spec_outgoing;
use crate::collision::block_hit;
use crate::collision::blocks_hit;
use crate::collision::pose_collides;
use crate::collision::CollisionMap;
use crate::data::spec_blocks;
use crate::data::spec_kick_index;
use crate::data::spec_kick_row;
use crate::data::spec_width;
use crate::data::KickTable;
use crate::data::ComboTable;
use crate::data::Mino;
use crate::data::Move;
use crate::data::Spin;
use crate::data::Spins;

verus! {

/// The falling piece: origin column, origin row, rotation and shape.
#[derive(Clone, Copy, Debug)]
pub struct Falling {
    pub x: u8,
    pub y: u8,
    pub rot: u8,
    pub mino: Mino,
}

impl Falling {
    /// The four block offsets of the piece at its current rotation.
    pub fn blocks(&self) -> (r: [(u8, u8); 4])
        requires
            self.rot < 4,
        ensures
            r@ == spec_blocks(self.mino, self.rot as int),
    {
        self.mino.rot(self.rot)
    }
}

/// One pending garbage entry: hole column, row count and turns until it lands.
#[derive(Clone, Copy, Debug)]
pub struct Garbage {
    pub col: u8,
    pub amt: u8,
    pub time: u8,
}

/// The rule knobs of a match.  The garbage multiplier is held in fixed-point
/// milli units (1000 means every row of damage is sent unchanged).
#[derive(Clone, Copy, Debug)]
pub struct GameConfig {
    pub kicks: KickTable,
    pub spins: Spins,
    pub b2b_charging: bool,
    pub b2b_charge_at: i16,
    pub b2b_charge_base: i16,
    pub b2b_chaining: bool,
    pub combo_table: ComboTable,
    pub garbage_multiplier_milli: u32,
    pub pc_b2b: u16,
    pub pc_send: u16,
    pub garbage_special_bonus: bool,
}

/// Spawn column of a shape: against the middle, shifted by the shape's width.
pub open spec fn spec_spawn_x(m: Mino) -> u8 {
    (((10 + spec_width(m)) / 2) - 1) as u8
}

/// Spawn row: two rows above the visible playfield.
pub open spec fn spec_spawn_y() -> u8 {
    22
}

/// The lowest row the piece can fall to from `y` by repeated soft drops.
pub open spec fn spec_drop_y(b: Board, m: Mino, rot: int, x: int, y: nat) -> nat
    decreases y,
{
    if y == 0 {
        0
    } else if pose_collides(b, m, rot, x, y - 1) {
        y
    } else {
        spec_drop_y(b, m, rot, x, (y - 1) as nat)
    }
}

/// The leftmost column reachable from `x` by repeated left moves.
pub open spec fn spec_das_left(b: Board, m: Mino, rot: int, x: nat, y: int) -> nat
    decreases x,
{
    if x == 0 || pose_collides(b, m, rot, x - 1, y) {
        x
    } else {
        spec_das_left(b, m, rot, (x - 1) as nat, y)
    }
}

/// The rightmost column reachable from `x` by repeated right moves.
pub open spec fn spec_das_right(b: Board, m: Mino, rot: int, x: int, y: int) -> int
    decreases 12 - x,
{
    if pose_collides(b, m, rot, x + 1, y) {
        x
    } else {
        spec_das_right(b, m, rot, x + 1, y)
    }
}

/// The T-spin corner rule: with at least three of the four diagonal corners
/// filled, a spin facing two filled corners is full, otherwise mini.
pub open spec fn spec_detect_t_spin(b: Board, x: int, y: int, rot: int) -> Spin {
    let nw = b.occ_ext(x - 2, y);
    let ne = b.occ_ext(x, y);
    let se = b.occ_ext(x, y - 2);
    let sw = b.occ_ext(x - 2, y - 2);
    let cnt = (if nw {
        1int
    } else {
        0int
    }) + (if ne {
        1int
    } else {
        0int
    }) + (if se {
        1int
    } else {
        0int
    }) + (if sw {
        1int
    } else {
        0int
    });
    if cnt < 3 {
        Spin::NoSpin
    } else if spec_corner(nw, ne, se, sw, rot) && spec_corner(nw, ne, se, sw, (rot + 1) % 4) {
        Spin::Normal
    } else {
        Spin::Mini
    }
}

/// Corner `idx` in the order north-west, north-east, south-east, south-west.
pub open spec fn spec_corner(nw: bool, ne: bool, se: bool, sw: bool, idx: int) -> bool {
    if idx == 0 {
        nw
    } else if idx == 1 {
        ne
    } else if idx == 2 {
        se
    } else {
        sw
    }
}

/// The piece can move in no direction at all.
pub open spec fn spec_is_immobile(b: Board, m: Mino, rot: int, x: int, y: int) -> bool {
    &&& pose_collides(b, m, rot, x, y + 1)
    &&& pose_collides(b, m, rot, x + 1, y)
    &&& pose_collides(b, m, rot, x, y - 1)
    &&& pose_collides(b, m, rot, x - 1, y)
}

/// Spin classification after a successful rotation, as a function of the
/// landing pose, the configured policy, and whether the rotation used one of
/// the deep T-spin kicks.
pub open spec fn spec_update_spin(
    b: Board,
    m: Mino,
    rot: int,
    x: int,
    y: int,
    policy: Spins,
    is_tst: bool,
    current: Spin,
) -> Spin {
    if policy == Spins::Off {
        Spin::NoSpin
    } else {
        let t_status = if m == Mino::T {
            if is_tst {
                Spin::Normal
            } else {
                spec_detect_t_spin(b, x, y, rot)
            }
        } else {
            Spin::NoSpin
        };
        if t_status != Spin::NoSpin || policy == Spins::T || policy == Spins::Mini || policy
            == Spins::All {
            t_status
        } else if spec_is_immobile(b, m, rot, x, y) {
            if m == Mino::T {
                Spin::Mini
            } else {
                match policy {
                    Spins::AllPlus | Spins::All => Spin::Normal,
                    Spins::MiniPlus | Spins::Mini => Spin::Mini,
                    _ => Spin::NoSpin,
                }
            }
        } else {
            Spin::NoSpin
        }
    }
}

/// Index of the first kick candidate at or after `i` that fits; 5 when none.
pub open spec fn spec_first_kick(
    b: Board,
    m: Mino,
    table: KickTable,
    from: int,
    to: int,
    x: int,
    y: int,
    i: int,
) -> int
    decreases 5 - i,
{
    if i < 0 || i >= 5 {
        5
    } else {
        let k = spec_kick_row(table, m, spec_kick_index(from, to))[i];
        if !pose_collides(b, m, to, x + k.0, y - k.1) {
            i
        } else {
            spec_first_kick(b, m, table, from, to, x, y, i + 1)
        }
    }
}

/// A kick of the deep T-spin family: down two and sideways, in the matching
/// direction.
pub open spec fn spec_is_tst_kick(from: int, to: int, k: (i8, i8)) -> bool {
    (((from == 2 && to == 3) || (from == 0 && to == 3)) && k.0 == 1 && k.1 == -2) || (((from == 2
        && to == 1) || (from == 0 && to == 1)) && k.0 == -1 && k.1 == -2)
}

/// Outcome of a rotation attempt: new pose, success, whether a kick was used,
/// and whether that kick was of the deep T-spin family.
pub open spec fn spec_rotate_pose(
    b: Board,
    m: Mino,
    table: KickTable,
    from: int,
    to: int,
    x: int,
    y: int,
) -> (int, int, int, bool, bool, bool) {
    if !pose_collides(b, m, to, x, y) {
        (x, y, to, true, false, false)
    } else {
        let i = spec_first_kick(b, m, table, from, to, x, y, 0);
        if i < 5 {
            let k = spec_kick_row(table, m, spec_kick_index(from, to))[i];
            (x + k.0, y - k.1, to, true, true, spec_is_tst_kick(from, to, k))
        } else {
            (x, y, from, false, false, false)
        }
    }
}


/// Columns after the first `i` blocks of the piece lock at `(x, y)`.
pub open spec fn spec_lock_upto(cols: Seq<u64>, m: Mino, rot: int, x: int, y: int, i: int) -> Seq<
    u64,
>
    decreases i,
{
    if i <= 0 {
        cols
    } else {
        let c = spec_lock_upto(cols, m, rot, x, y, i - 1);
        let blk = spec_blocks(m, rot)[i - 1];
        c.update(x - blk.0, c[x - blk.0] | (1u64 << ((y - blk.1) as u64)))
    }
}

/// Greatest block `dy` of the rotation.
pub open spec fn spec_max_dy(m: Mino, rot: int) -> int {
    let s = spec_blocks(m, rot);
    let a = if s[1].1 > s[0].1 {
        s[1].1 as int
    } else {
        s[0].1 as int
    };
    let b = if s[2].1 > a {
        s[2].1 as int
    } else {
        a
    };
    if s[3].1 > b {
        s[3].1 as int
    } else {
        b
    }
}

/// Least block `dy` of the rotation.
pub open spec fn spec_min_dy(m: Mino, rot: int) -> int {
    let s = spec_blocks(m, rot);
    let a = if s[1].1 < s[0].1 {
        s[1].1 as int
    } else {
        s[0].1 as int
    };
    let b = if s[2].1 < a {
        s[2].1 as int
    } else {
        a
    };
    if s[3].1 < b {
        s[3].1 as int
    } else {
        b
    }
}

/// A clear that keeps the back-to-back run alive: a spin or four lines.
pub open spec fn spec_special_clear(spin: Spin, cleared: int) -> bool {
    spin != Spin::NoSpin || cleared >= 4
}

/// The back-to-back counter after a drop that cleared `cleared` rows.
pub open spec fn spec_b2b_after(b2b0: int, cleared: int, spin: Spin, pc: bool, pc_b2b: u16) -> int {
    if cleared > 0 {
        if spec_special_clear(spin, cleared) && !(pc && pc_b2b > 0) {
            b2b0 + 1
        } else if pc && pc_b2b > 0 {
            b2b0 + pc_b2b
        } else {
            -1
        }
    } else {
        b2b0
    }
}

/// The drop broke a running back-to-back chain.
pub open spec fn spec_b2b_broke(cleared: int, spin: Spin, pc: bool, pc_b2b: u16) -> bool {
    cleared > 0 && !spec_special_clear(spin, cleared) && !(pc && pc_b2b > 0)
}

/// Sent damage eats the front of the pending-garbage queue; whatever is left
/// of it goes out.
pub open spec fn spec_consume_garbage(q: Seq<Garbage>, sent: int) -> (Seq<Garbage>, int)
    decreases q.len(),
{
    if sent <= 0 || q.len() == 0 {
        (q, sent)
    } else if q[0].amt > sent {
        (q.update(0, Garbage { col: q[0].col, amt: (q[0].amt - sent) as u8, time: q[0].time }), 0int)
    } else {
        spec_consume_garbage(q.drop_first(), sent - q[0].amt)
    }
}

/// Every expired entry at the front of the queue lands on the board.
pub open spec fn spec_apply_expired(cols: Seq<u64>, g: int, q: Seq<Garbage>) -> (
    Seq<u64>,
    int,
    Seq<Garbage>,
)
    decreases q.len(),
{
    if q.len() == 0 || q[0].time != 0 {
        (cols, g, q)
    } else {
        let ncols = if q[0].amt == 0 {
            cols
        } else {
            seq_insert_garbage(cols, q[0].amt as u64, q[0].col as int)
        };
        let ng = if q[0].amt == 0 {
            g
        } else if g + q[0].amt <= 40 {
            g + q[0].amt
        } else {
            40int
        };
        spec_apply_expired(ncols, ng, q.drop_first())
    }
}

/// Every remaining entry's delay ticks down by one turn.
pub open spec fn spec_tick_times(q: Seq<Garbage>) -> Seq<Garbage> {
    Seq::new(
        q.len(),
        |i: int|
            Garbage {
                col: q[i].col,
                amt: q[i].amt,
                time: if q[i].time > 0 {
                    (q[i].time - 1) as u8
                } else {
                    0u8
                },
            },
    )
}

/// Dropping from a free pose lands on a free pose with a blocked cell below.
pub proof fn lemma_drop_props(b: Board, m: Mino, rot: int, x: int, y: nat)
    requires
        !pose_collides(b, m, rot, x, y as int),
    ensures
        !pose_collides(b, m, rot, x, spec_drop_y(b, m, rot, x, y) as int),
        pose_collides(b, m, rot, x, spec_drop_y(b, m, rot, x, y) - 1),
        spec_drop_y(b, m, rot, x, y) <= y,
    decreases y,
{
    if y > 0 && !pose_collides(b, m, rot, x, y - 1) {
        lemma_drop_props(b, m, rot, x, (y - 1) as nat);
    }
}

/// A count of set bits grows with its bound.
proof fn lemma_ones_mono(m: u64, j: nat, k: nat)
    requires
        j <= k,
    ensures
        ones_below(m, j) <= ones_below(m, k),
    decreases k,
{
    if k > j {
        lemma_ones_mono(m, j, (k - 1) as nat);
    }
}

/// A mask whose set bits all lie in `[lo, hi)` has at most `hi - lo` of them.
proof fn lemma_ones_upper(m: u64, lo: nat, hi: nat, k: nat)
    requires
        lo <= hi,
        forall|y: u64| y < 64 && #[trigger] nth_bit(m, y) ==> lo <= y < hi,
        k <= 64,
    ensures
        k <= lo ==> ones_below(m, k) == 0,
        ones_below(m, k) <= if k >= hi {
            hi - lo
        } else if k >= lo {
            k - lo
        } else {
            0int
        },
    decreases k,
{
    if k > 0 {
        lemma_ones_upper(m, lo, hi, (k - 1) as nat);
    }
}


/// In a window of at most four rows, at most four rows clear, and the garbage
/// share of them is no larger than the whole.
proof fn lemma_clear_facts(cols1: Seq<u64>, from: u64, to: u64, g: nat)
    requires
        from <= to < 40,
        to - from <= 3,
        g <= 40,
    ensures
        ones_below(seq_full_mask(cols1, from, to), 40) <= 4,
        ones_below(seq_full_mask(cols1, from, to), g) <= ones_below(
            seq_full_mask(cols1, from, to),
            40,
        ),
{
    let mask = seq_full_mask(cols1, from, to);
    assert forall|yb: u64| yb < 64 && #[trigger] nth_bit(mask, yb) implies from <= yb <= to by {
        crate::board::lemma_full_mask_bit(cols1, from, to, yb);
    }
    lemma_ones_upper(mask, from as nat, (to + 1) as nat, 40);
    lemma_ones_mono(mask, g, 40);
}


/// The full functional relation of one hard drop: `gb` with result `r` is
/// what dropping the piece of `ga` produces — the piece soft-drops and locks,
/// the full rows of its span clear, combo and back-to-back settle, the damage
/// goes out against the pending garbage, expired garbage lands on a quiet
/// drop, every delay ticks, and the next preview piece spawns.
#[verifier::opaque]
pub open spec fn spec_hard_drop_rel(ga: Game, gb: Game, r: (u16, Option<Spin>), config: GameConfig) -> bool {
    let m = ga.piece.mino;
    let rot = ga.piece.rot as int;
    let px = ga.piece.x as int;
    let y1 = spec_drop_y(ga.board, m, rot, px, ga.piece.y as nat) as int;
    let cols1 = spec_lock_upto(ga.board.cols@, m, rot, px, y1, 4);
    let mask = seq_full_mask(
        cols1,
        (y1 - spec_max_dy(m, rot)) as u64,
        (y1 - spec_min_dy(m, rot)) as u64,
    );
    let cleared = ones_below(mask, 40) as int;
    let gdrop = ones_below(mask, ga.board.garbage as nat) as int;
    let cols2 = Seq::new(10, |x: int| Board::remove_rows(cols1[x], mask, 40));
    let pc = forall|x: int| 0 <= x < 10 ==> !nth_bit(#[trigger] cols2[x], 0);
    let b2b1 = spec_b2b_after(ga.b2b as int, cleared, ga.spin, pc, config.pc_b2b);
    let broke = spec_b2b_broke(cleared, ga.spin, pc, config.pc_b2b);
    let combo1 = if cleared > 0 {
        ga.combo + 1
    } else {
        -1int
    };
    let dmg = spec_damage_milli(
        cleared,
        ga.spin,
        b2b1,
        combo1,
        config.combo_table,
        config.b2b_chaining,
    );
    let special = config.garbage_special_bonus && gdrop > 0 && spec_special_clear(
        ga.spin,
        cleared,
    );
    let charge = if broke && config.b2b_charging && ga.b2b + 1 > config.b2b_charge_at {
        spec_charge_sent(
            ga.b2b - config.b2b_charge_at + config.b2b_charge_base + 1,
            config.garbage_multiplier_milli as int,
        )
    } else {
        0int
    };
    let sent0 = spec_outgoing(
        dmg,
        config.garbage_multiplier_milli as int,
        special,
        pc,
        config.pc_send,
        charge,
    );
    let sent1 = if sent0 > 65535 {
        65535int
    } else {
        sent0
    };
    let cg = spec_consume_garbage(ga.garbage@, sent1);
    let ae = spec_apply_expired(cols2, ga.board.garbage - gdrop, ga.garbage@);
    &&& gb.b2b == b2b1
    &&& gb.combo == combo1
    &&& gb.spin == Spin::NoSpin
    &&& gb.hold == ga.hold
    &&& gb.queue == ga.queue
    &&& gb.queue_ptr == ga.queue_ptr + 1
    &&& gb.piece.mino == ga.queue@[ga.queue_ptr as int]
    &&& gb.piece.x == spec_spawn_x(ga.queue@[ga.queue_ptr as int])
    &&& gb.piece.y == spec_spawn_y()
    &&& gb.piece.rot == 0
    &&& cleared > 0 ==> {
        &&& gb.board.cols@ == cols2
        &&& gb.board.garbage == ga.board.garbage - gdrop
        &&& gb.garbage@ == spec_tick_times(cg.0)
        &&& r.0 == cg.1
    }
    &&& cleared == 0 ==> {
        &&& gb.board.cols@ == ae.0
        &&& gb.board.garbage == ae.1
        &&& gb.garbage@ == spec_tick_times(ae.2)
        &&& r.0 == sent1
    }
    &&& r.1 == (if cleared >= 4 {
        Some(Spin::Normal)
    } else if cleared > 0 {
        Some(ga.spin)
    } else {
        None::<Spin>
    })
}

/// The whole game state: board, falling piece, preview queue, hold slot,
/// scoring counters, pending garbage, and the cached collision field.
#[derive(Clone, Debug)]
pub struct Game {
    pub board: Board,
    pub queue: [Mino; 32],
    pub queue_ptr: usize,
    pub b2b: i16,
    pub combo: i16,
    pub hold: Option<Mino>,
    pub piece: Falling,
    pub garbage: Vec<Garbage>,
    pub collision_map: CollisionMap,
    pub spin: Spin,
}

impl Board {
    /// The collision field of this board for the given piece's shape.
    pub fn collision_map(&self, piece: &Falling) -> (r: CollisionMap)
        requires
            self.wf(),
        ensures
            r.wf_for(*self, piece.mino),
    {
        CollisionMap::new(self, piece.mino)
    }
}

impl Game {
    /// Well-formed: the board keeps its invariant, the piece stays inside the
    /// collision field, the queue pointer stays inside the preview, and every
    /// pending garbage entry is insertable.
    pub open spec fn wf(self) -> bool {
        &&& self.board.wf()
        &&& self.piece.rot < 4
        &&& self.piece.x < 12
        &&& self.piece.y < 40
        &&& self.queue_ptr <= 32
        &&& forall|i: int|
            0 <= i < self.garbage@.len() ==> (#[trigger] self.garbage@[i]).col < 10
                && self.garbage@[i].amt <= 40
    }

    /// The cached collision field describes the current board and shape.
    pub open spec fn cm_ok(self) -> bool {
        self.collision_map.wf_for(self.board, self.piece.mino)
    }

    /// A fresh game: empty board, the given current piece and preview queue.
    pub fn new(piece: Mino, queue: [Mino; 32]) -> (r: Game)
        ensures
            r.wf(),
            r.cm_ok(),
            r.board.garbage == 0,
            forall|x: int, y: int| 0 <= x < 10 && 0 <= y < 40 ==> !r.board.occ(x, y),
            r.queue == queue,
            r.queue_ptr == 0,
            r.b2b == -1,
            r.combo == -1,
            r.hold is None,
            r.garbage@.len() == 0,
            r.spin == Spin::NoSpin,
            r.piece.mino == piece,
            r.piece.x == spec_spawn_x(piece),
            r.piece.y == spec_spawn_y(),
            r.piece.rot == 0,
    {
        let board = Board::new();
        let w = piece.width();
        let falling = Falling { x: (10 + w) / 2 - 1, y: 22, rot: 0, mino: piece };
        let collision_map = board.collision_map(&falling);
        Game {
            b2b: -1,
            combo: -1,
            board,
            queue,
            queue_ptr: 0,
            hold: None,
            piece: falling,
            garbage: Vec::new(),
            collision_map,
            spin: Spin::NoSpin,
        }
    }

    /// The piece cannot move in any of the four directions.
    pub fn is_immobile(&self) -> (r: bool)
        requires
            self.wf(),
            self.cm_ok(),
        ensures
            r == spec_is_immobile(
                self.board,
                self.piece.mino,
                self.piece.rot as int,
                self.piece.x as int,
                self.piece.y as int,
            ),
    {
        let up = self.collision_map.test(self.piece.x, self.piece.y + 1, self.piece.rot);
        let right = self.collision_map.test(self.piece.x + 1, self.piece.y, self.piece.rot);
        let down = if self.piece.y == 0 {
            true
        } else {
            self.collision_map.test(self.piece.x, self.piece.y - 1, self.piece.rot)
        };
        let left = if self.piece.x == 0 {
            true
        } else {
            self.collision_map.test(self.piece.x - 1, self.piece.y, self.piece.rot)
        };
        up && right && down && left
    }

    /// The T-spin corner test at the piece's current pose.
    pub fn detect_t_spin(&self) -> (r: Spin)
        requires
            self.wf(),
        ensures
            r == spec_detect_t_spin(
                self.board,
                self.piece.x as int,
                self.piece.y as int,
                self.piece.rot as int,
            ),
    {
        let x = self.piece.x as i8;
        let y = self.piece.y as i8;
        let corners = [
            self.board.is_occupied(x - 2, y),
            self.board.is_occupied(x, y),
            self.board.is_occupied(x, y - 2),
            self.board.is_occupied(x - 2, y - 2),
        ];
        let mut corner_count: u8 = 0;
        if corners[0] {
            corner_count = corner_count + 1;
        }
        if corners[1] {
            corner_count = corner_count + 1;
        }
        if corners[2] {
            corner_count = corner_count + 1;
        }
        if corners[3] {
            corner_count = corner_count + 1;
        }
        if corner_count < 3 {
            return Spin::NoSpin;
        }
        let rot = self.piece.rot as usize;
        let next = ((self.piece.rot + 1) % 4) as usize;
        if corners[rot] && corners[next] {
            return Spin::Normal;
        }
        Spin::Mini
    }

    /// Reclassify the spin after a successful rotation.
    pub fn update_spin(&mut self, is_tst_or_fin: bool, config: &GameConfig)
        requires
            old(self).wf(),
            old(self).cm_ok(),
        ensures
            final(self).wf(),
            final(self).cm_ok(),
            *final(self) == (Game {
                spin: spec_update_spin(
                    old(self).board,
                    old(self).piece.mino,
                    old(self).piece.rot as int,
                    old(self).piece.x as int,
                    old(self).piece.y as int,
                    config.spins,
                    is_tst_or_fin,
                    old(self).spin,
                ),
                ..*old(self)
            }),
    {
        if config.spins == Spins::Off {
            self.spin = Spin::NoSpin;
            return ;
        }
        let t_status = if self.piece.mino == Mino::T {
            if is_tst_or_fin {
                Spin::Normal
            } else {
                self.detect_t_spin()
            }
        } else {
            Spin::NoSpin
        };
        if t_status != Spin::NoSpin || config.spins == Spins::T || config.spins == Spins::Mini
            || config.spins == Spins::All {
            self.spin = t_status;
            return ;
        }
        let immobile = self.is_immobile();
        if immobile {
            if self.piece.mino == Mino::T {
                self.spin = Spin::Mini;
            } else {
                self.spin = match config.spins {
                    Spins::AllPlus | Spins::All => Spin::Normal,
                    Spins::MiniPlus | Spins::Mini => Spin::Mini,
                    _ => Spin::NoSpin,
                };
            }
        } else {
            self.spin = Spin::NoSpin;
        }
    }

    /// Rotate by `amount` quarter turns, walking the kick list if the direct
    /// rotation collides.  Returns whether the rotation succeeded and whether
    /// a kick was used; a success reclassifies the spin.
    #[verifier::loop_isolation(false)]
    #[verifier::rlimit(100)]
    pub fn rotate(&mut self, amount: u8, config: &GameConfig) -> (r: (bool, bool))
        requires
            old(self).wf(),
            old(self).cm_ok(),
            1 <= amount <= 3,
        ensures
            final(self).wf(),
            final(self).cm_ok(),
            ({
                let g0 = *old(self);
                let to = ((g0.piece.rot + amount) % 4) as int;
                let p = spec_rotate_pose(
                    g0.board,
                    g0.piece.mino,
                    config.kicks,
                    g0.piece.rot as int,
                    to,
                    g0.piece.x as int,
                    g0.piece.y as int,
                );
                &&& r.0 == p.3
                &&& r.1 == p.4
                &&& final(self).piece.x == p.0
                &&& final(self).piece.y == p.1
                &&& final(self).piece.rot == p.2
                &&& final(self).piece.mino == g0.piece.mino
                &&& final(self).board == g0.board
                &&& final(self).queue == g0.queue
                &&& final(self).queue_ptr == g0.queue_ptr
                &&& final(self).b2b == g0.b2b
                &&& final(self).combo == g0.combo
                &&& final(self).hold == g0.hold
                &&& final(self).garbage == g0.garbage
                &&& final(self).collision_map == g0.collision_map
                &&& final(self).spin == if p.3 {
                    spec_update_spin(
                        g0.board,
                        g0.piece.mino,
                        p.2,
                        p.0,
                        p.1,
                        config.spins,
                        p.5,
                        g0.spin,
                    )
                } else {
                    g0.spin
                }
            }),
    {
        let to = (self.piece.rot + amount) % 4;
        let ghost g0 = *old(self);
        let ghost from_i = g0.piece.rot as int;
        let ghost to_i = to as int;
        let mut success = false;
        let mut kicked = false;
        let mut tst = false;
        if !self.collision_map.test(self.piece.x, self.piece.y, to) {
            self.piece.rot = to;
            success = true;
        } else {
            let from = self.piece.rot;
            let kickset = config.kicks.data(self.piece.mino, from, to);
            let mut i: usize = 0;
            let mut done = false;
            while i < 5 && !done
                invariant
                    i <= 5,
                    self.piece == g0.piece,
                    kickset@ == spec_kick_row(
                        config.kicks,
                        g0.piece.mino,
                        spec_kick_index(from_i, to_i),
                    ),
                    !done ==> spec_first_kick(
                        g0.board,
                        g0.piece.mino,
                        config.kicks,
                        from_i,
                        to_i,
                        g0.piece.x as int,
                        g0.piece.y as int,
                        0,
                    ) == spec_first_kick(
                        g0.board,
                        g0.piece.mino,
                        config.kicks,
                        from_i,
                        to_i,
                        g0.piece.x as int,
                        g0.piece.y as int,
                        i as int,
                    ),
                    done ==> i >= 1 && spec_first_kick(
                        g0.board,
                        g0.piece.mino,
                        config.kicks,
                        from_i,
                        to_i,
                        g0.piece.x as int,
                        g0.piece.y as int,
                        0,
                    ) == i - 1 && !pose_collides(
                        g0.board,
                        g0.piece.mino,
                        to_i,
                        g0.piece.x + spec_kick_row(
                            config.kicks,
                            g0.piece.mino,
                            spec_kick_index(from_i, to_i),
                        )[i - 1].0,
                        g0.piece.y - spec_kick_row(
                            config.kicks,
                            g0.piece.mino,
                            spec_kick_index(from_i, to_i),
                        )[i - 1].1,
                    ),
                decreases 5 - i,
            {
                let (dx, dy) = kickset[i];
                let nx: i16 = self.piece.x as i16 + dx as i16;
                let ny: i16 = self.piece.y as i16 - dy as i16;
                let hit: bool = if nx < 0 || ny < 0 || nx >= 12 || ny >= 40 {
                    true
                } else {
                    self.collision_map.test(nx as u8, ny as u8, to)
                };
                proof {
                    assert(hit == pose_collides(
                        g0.board,
                        g0.piece.mino,
                        to_i,
                        g0.piece.x + dx,
                        g0.piece.y - dy,
                    ));
                }
                if !hit {
                    done = true;
                } else {
                    proof {
                        assert(spec_first_kick(
                            g0.board,
                            g0.piece.mino,
                            config.kicks,
                            from_i,
                            to_i,
                            g0.piece.x as int,
                            g0.piece.y as int,
                            i as int,
                        ) == spec_first_kick(
                            g0.board,
                            g0.piece.mino,
                            config.kicks,
                            from_i,
                            to_i,
                            g0.piece.x as int,
                            g0.piece.y as int,
                            i as int + 1,
                        ));
                    }
                }
                i = i + 1;
            }
            if done {
                let idx = i - 1;
                let (dx, dy) = kickset[idx];
                let is_tst_or_fin = (((from == 2 && to == 3) || (from == 0 && to == 3)) && dx == 1
                    && dy == -2) || (((from == 2 && to == 1) || (from == 0 && to == 1)) && dx == -1
                    && dy == -2);
                let nx: i16 = self.piece.x as i16 + dx as i16;
                let ny: i16 = self.piece.y as i16 - dy as i16;
                proof {
                    assert(!pose_collides(
                        g0.board,
                        g0.piece.mino,
                        to_i,
                        g0.piece.x + dx,
                        g0.piece.y - dy,
                    ));
                    assert(0 <= g0.piece.x + dx < 12);
                    assert(0 <= g0.piece.y - dy < 40);
                }
                self.piece.x = nx as u8;
                self.piece.y = ny as u8;
                self.piece.rot = to;
                success = true;
                kicked = true;
                tst = is_tst_or_fin;
            }
        }
        proof {
            assert(self.wf());
        }
        if success {
            self.update_spin(tst, config);
        }
        (success, kicked)
    }

    /// Move one column left if the target pose is free.
    pub fn move_left(&mut self) -> (r: bool)
        requires
            old(self).wf(),
            old(self).cm_ok(),
        ensures
            final(self).wf(),
            final(self).cm_ok(),
            r == !pose_collides(
                old(self).board,
                old(self).piece.mino,
                old(self).piece.rot as int,
                old(self).piece.x as int - 1,
                old(self).piece.y as int,
            ),
            *final(self) == (Game {
                piece: Falling {
                    x: if r {
                        (old(self).piece.x - 1) as u8
                    } else {
                        old(self).piece.x
                    },
                    ..old(self).piece
                },
                ..*old(self)
            }),
    {
        if self.piece.x == 0 {
            return false;
        }
        if self.collision_map.test(self.piece.x - 1, self.piece.y, self.piece.rot) {
            return false;
        }
        self.piece.x = self.piece.x - 1;
        true
    }

    /// Move one column right if the target pose is free.
    pub fn move_right(&mut self) -> (r: bool)
        requires
            old(self).wf(),
            old(self).cm_ok(),
        ensures
            final(self).wf(),
            final(self).cm_ok(),
            r == !pose_collides(
                old(self).board,
                old(self).piece.mino,
                old(self).piece.rot as int,
                old(self).piece.x as int + 1,
                old(self).piece.y as int,
            ),
            *final(self) == (Game {
                piece: Falling {
                    x: if r {
                        (old(self).piece.x + 1) as u8
                    } else {
                        old(self).piece.x
                    },
                    ..old(self).piece
                },
                ..*old(self)
            }),
    {
        if self.collision_map.test(self.piece.x + 1, self.piece.y, self.piece.rot) {
            return false;
        }
        self.piece.x = self.piece.x + 1;
        true
    }

    /// Shift right until the next shift would collide.
    #[verifier::loop_isolation(false)]
    pub fn das_right(&mut self) -> (r: bool)
        requires
            old(self).wf(),
            old(self).cm_ok(),
        ensures
            final(self).wf(),
            final(self).cm_ok(),
            final(self).piece.x == spec_das_right(
                old(self).board,
                old(self).piece.mino,
                old(self).piece.rot as int,
                old(self).piece.x as int,
                old(self).piece.y as int,
            ),
            r == (final(self).piece.x != old(self).piece.x),
            *final(self) == (Game {
                piece: Falling { x: final(self).piece.x, ..old(self).piece },
                ..*old(self)
            }),
    {
        let ghost g0 = *old(self);
        let mut x = self.piece.x;
        let mut moved = false;
        while !self.collision_map.test(x + 1, self.piece.y, self.piece.rot)
            invariant
                *self == g0,
                x < 12,
                x >= g0.piece.x,
                moved == (x != g0.piece.x),
                spec_das_right(
                    g0.board,
                    g0.piece.mino,
                    g0.piece.rot as int,
                    g0.piece.x as int,
                    g0.piece.y as int,
                ) == spec_das_right(
                    g0.board,
                    g0.piece.mino,
                    g0.piece.rot as int,
                    x as int,
                    g0.piece.y as int,
                ),
            decreases 12 - x,
        {
            moved = true;
            x = x + 1;
        }
        self.piece.x = x;
        moved
    }

    /// Shift left until the next shift would collide.
    #[verifier::loop_isolation(false)]
    pub fn das_left(&mut self) -> (r: bool)
        requires
            old(self).wf(),
            old(self).cm_ok(),
        ensures
            final(self).wf(),
            final(self).cm_ok(),
            final(self).piece.x == spec_das_left(
                old(self).board,
                old(self).piece.mino,
                old(self).piece.rot as int,
                old(self).piece.x as nat,
                old(self).piece.y as int,
            ),
            r == (final(self).piece.x != old(self).piece.x),
            *final(self) == (Game {
                piece: Falling { x: final(self).piece.x, ..old(self).piece },
                ..*old(self)
            }),
    {
        let ghost g0 = *old(self);
        let mut x = self.piece.x;
        let mut moved = false;
        while x > 0 && !self.collision_map.test(x - 1, self.piece.y, self.piece.rot)
            invariant
                *self == g0,
                x < 12,
                x <= g0.piece.x,
                moved == (x != g0.piece.x),
                spec_das_left(
                    g0.board,
                    g0.piece.mino,
                    g0.piece.rot as int,
                    g0.piece.x as nat,
                    g0.piece.y as int,
                ) == spec_das_left(
                    g0.board,
                    g0.piece.mino,
                    g0.piece.rot as int,
                    x as nat,
                    g0.piece.y as int,
                ),
            decreases x,
        {
            moved = true;
            x = x - 1;
        }
        self.piece.x = x;
        moved
    }

    /// Drop the piece to the lowest free row below it.
    #[verifier::loop_isolation(false)]
    pub fn soft_drop(&mut self) -> (r: bool)
        requires
            old(self).wf(),
            old(self).cm_ok(),
        ensures
            final(self).wf(),
            final(self).cm_ok(),
            final(self).piece.y == spec_drop_y(
                old(self).board,
                old(self).piece.mino,
                old(self).piece.rot as int,
                old(self).piece.x as int,
                old(self).piece.y as nat,
            ),
            r == (final(self).piece.y != old(self).piece.y),
            *final(self) == (Game {
                piece: Falling { y: final(self).piece.y, ..old(self).piece },
                ..*old(self)
            }),
    {
        let ghost g0 = *old(self);
        let piece_x = self.piece.x;
        let mut piece_y = self.piece.y;
        let mut moved = false;
        while piece_y > 0 && !self.collision_map.test(piece_x, piece_y - 1, self.piece.rot)
            invariant
                *self == g0,
                piece_y < 40,
                piece_y <= g0.piece.y,
                moved == (piece_y != g0.piece.y),
                spec_drop_y(
                    g0.board,
                    g0.piece.mino,
                    g0.piece.rot as int,
                    g0.piece.x as int,
                    g0.piece.y as nat,
                ) == spec_drop_y(
                    g0.board,
                    g0.piece.mino,
                    g0.piece.rot as int,
                    g0.piece.x as int,
                    piece_y as nat,
                ),
            decreases piece_y,
        {
            moved = true;
            piece_y = piece_y - 1;
        }
        self.piece.y = piece_y;
        moved
    }

    /// Swap with the hold slot, or store the piece and pull the next one when
    /// the slot is empty.  The collision field is left stale; callers
    /// regenerate it before the next collision query.
    pub fn hold(&mut self) -> (r: bool)
        requires
            old(self).wf(),
            old(self).hold is Some || old(self).queue_ptr < 32,
        ensures
            final(self).wf(),
            r == true,
            ({
                let g0 = *old(self);
                match g0.hold {
                    Some(h) => *final(self) == (Game {
                        hold: Some(g0.piece.mino),
                        piece: Falling {
                            x: spec_spawn_x(h),
                            y: spec_spawn_y(),
                            rot: g0.piece.rot,
                            mino: h,
                        },
                        ..g0
                    }),
                    None => *final(self) == (Game {
                        hold: Some(g0.piece.mino),
                        queue_ptr: (g0.queue_ptr + 1) as usize,
                        piece: Falling {
                            x: spec_spawn_x(g0.queue@[g0.queue_ptr as int]),
                            y: spec_spawn_y(),
                            rot: 0,
                            mino: g0.queue@[g0.queue_ptr as int],
                        },
                        ..g0
                    }),
                }
            }),
    {
        match self.hold {
            Some(h) => {
                self.hold = Some(self.piece.mino);
                self.piece.mino = h;
                let w = h.width();
                self.piece.x = (10 + w) / 2 - 1;
                self.piece.y = 22;
            },
            None => {
                self.hold = Some(self.piece.mino);
                self.next_piece();
            },
        }
        true
    }

    /// Pull the next preview piece and respawn it.  The collision field is
    /// left stale when the shape changes.
    pub fn next_piece(&mut self)
        requires
            old(self).wf(),
            old(self).queue_ptr < 32,
        ensures
            final(self).wf(),
            *final(self) == (Game {
                queue_ptr: (old(self).queue_ptr + 1) as usize,
                piece: Falling {
                    x: spec_spawn_x(old(self).queue@[old(self).queue_ptr as int]),
                    y: spec_spawn_y(),
                    rot: 0,
                    mino: old(self).queue@[old(self).queue_ptr as int],
                },
                ..*old(self)
            }),
    {
        let next = self.queue[self.queue_ptr];
        self.queue_ptr = self.queue_ptr + 1;
        self.piece.mino = next;
        let w = next.width();
        self.piece.x = (10 + w) / 2 - 1;
        self.piece.y = 22;
        self.piece.rot = 0;
    }



    /// Let the sent damage eat the front of the pending-garbage queue and
    /// return what is left of it.
    #[verifier::loop_isolation(false)]
    fn consume_pending(&mut self, sent: u16) -> (r: u16)
        requires
            old(self).wf(),
        ensures
            final(self).wf(),
            *final(self) == (Game { garbage: final(self).garbage, ..*old(self) }),
            (final(self).garbage@, r as int) == spec_consume_garbage(
                old(self).garbage@,
                sent as int,
            ),
    {
        let ghost q0 = self.garbage@;
        let ghost s0 = sent as int;
        let mut sent = sent;
        while sent > 0 && self.garbage.len() > 0
            invariant
                self.wf(),
                *self == (Game { garbage: self.garbage, ..*old(self) }),
                spec_consume_garbage(q0, s0) == spec_consume_garbage(self.garbage@, sent as int),
            decreases self.garbage.len() + sent,
        {
            let g = self.garbage[0];
            if (g.amt as u16) > sent {
                let ghost qb = self.garbage@;
                let mut g2 = self.garbage.remove(0);
                g2.amt = g2.amt - (sent as u8);
                self.garbage.insert(0, g2);
                proof {
                    assert(self.garbage@ =~= qb.update(
                        0,
                        Garbage { col: g.col, amt: (g.amt - sent) as u8, time: g.time },
                    ));
                }
                sent = 0;
            } else {
                sent = sent - (g.amt as u16);
                let ghost qb = self.garbage@;
                self.garbage.remove(0);
                proof {
                    assert(self.garbage@ =~= qb.drop_first());
                }
            }
        }
        sent
    }

    /// Land every expired entry at the front of the pending-garbage queue.
    #[verifier::loop_isolation(false)]
    fn land_expired(&mut self)
        requires
            old(self).wf(),
        ensures
            final(self).wf(),
            *final(self) == (Game {
                board: final(self).board,
                garbage: final(self).garbage,
                ..*old(self)
            }),
            (final(self).board.cols@, final(self).board.garbage as int, final(self).garbage@)
                == spec_apply_expired(
                old(self).board.cols@,
                old(self).board.garbage as int,
                old(self).garbage@,
            ),
    {
        let ghost cols0 = self.board.cols@;
        let ghost gar0 = self.board.garbage as int;
        let ghost q0 = self.garbage@;
        while self.garbage.len() > 0 && self.garbage[0].time == 0
            invariant
                self.wf(),
                *self == (Game { board: self.board, garbage: self.garbage, ..*old(self) }),
                spec_apply_expired(cols0, gar0, q0) == spec_apply_expired(
                    self.board.cols@,
                    self.board.garbage as int,
                    self.garbage@,
                ),
            decreases self.garbage.len(),
        {
            let ghost qb = self.garbage@;
            let ghost cb = self.board.cols@;
            let g = self.garbage.remove(0);
            proof {
                assert(self.garbage@ =~= qb.drop_first());
            }
            self.board.insert_garbage(g.amt, g.col);
            proof {
                if g.amt == 0 {
                    assert(self.board.cols@ == cb);
                }
            }
        }
    }

    /// Tick down the delay of every remaining pending-garbage entry.
    #[verifier::loop_isolation(false)]
    fn tick_pending(&mut self)
        requires
            old(self).wf(),
        ensures
            final(self).wf(),
            *final(self) == (Game { garbage: final(self).garbage, ..*old(self) }),
            final(self).garbage@ == spec_tick_times(old(self).garbage@),
    {
        let ghost qmid = self.garbage@;
        let mut nq: Vec<Garbage> = Vec::new();
        let mut i: usize = 0;
        while i < self.garbage.len()
            invariant
                i <= self.garbage@.len(),
                self.garbage@ == qmid,
                *self == *old(self),
                nq@ =~= spec_tick_times(qmid).subrange(0, i as int),
                forall|j: int|
                    0 <= j < nq@.len() ==> (#[trigger] nq@[j]).col < 10 && nq@[j].amt <= 40,
            decreases self.garbage.len() - i,
        {
            let g = self.garbage[i];
            let t: u8 = if g.time > 0 {
                g.time - 1
            } else {
                0
            };
            nq.push(Garbage { col: g.col, amt: g.amt, time: t });
            proof {
                assert(nq@ =~= spec_tick_times(qmid).subrange(0, i as int + 1));
            }
            i = i + 1;
        }
        self.garbage = nq;
        proof {
            assert(spec_tick_times(qmid).subrange(0, qmid.len() as int) =~= spec_tick_times(qmid));
        }
    }

    /// Advance the combo and back-to-back counters for a drop that cleared
    /// `cleared` rows; returns whether a running back-to-back chain broke.
    fn settle_counters(&mut self, cleared: u8, pc: bool, config: &GameConfig) -> (broke: bool)
        requires
            old(self).wf(),
            old(self).b2b < 32767,
            old(self).combo < 32767,
            config.pc_b2b <= 32767,
            old(self).b2b + config.pc_b2b <= 32767,
        ensures
            final(self).wf(),
            *final(self) == (Game { b2b: final(self).b2b, combo: final(self).combo, ..*old(self) }),
            final(self).b2b as int == spec_b2b_after(
                old(self).b2b as int,
                cleared as int,
                old(self).spin,
                pc,
                config.pc_b2b,
            ),
            final(self).combo as int == if cleared > 0 {
                old(self).combo + 1
            } else {
                -1int
            },
            broke == spec_b2b_broke(cleared as int, old(self).spin, pc, config.pc_b2b),
    {
        let mut broke: bool = true;
        if cleared > 0 {
            self.combo = self.combo + 1;
            let special = self.spin != Spin::NoSpin || cleared >= 4;
            if special && !(pc && config.pc_b2b > 0) {
                self.b2b = self.b2b + 1;
                broke = false;
            }
            if pc && config.pc_b2b > 0 {
                self.b2b = self.b2b + (config.pc_b2b as i16);
                broke = false;
            }
            if broke {
                self.b2b = -1;
            }
        } else {
            self.combo = -1;
            broke = false;
        }
        broke
    }



    /// Lock the four blocks of the piece onto the board at its current pose.
    #[verifier::rlimit(100)]
    fn lock_blocks(&mut self)
        requires
            old(self).wf(),
            !pose_collides(
                old(self).board,
                old(self).piece.mino,
                old(self).piece.rot as int,
                old(self).piece.x as int,
                old(self).piece.y as int,
            ),
        ensures
            final(self).wf(),
            final(self).board.cols@ == spec_lock_upto(
                old(self).board.cols@,
                old(self).piece.mino,
                old(self).piece.rot as int,
                old(self).piece.x as int,
                old(self).piece.y as int,
                4,
            ),
            final(self).board.garbage == old(self).board.garbage,
            *final(self) == (Game { board: final(self).board, ..*old(self) }),
    {
        let ghost g0 = *old(self);
        let ghost m = g0.piece.mino;
        let ghost rot_i = g0.piece.rot as int;
        let ghost px = g0.piece.x as int;
        let ghost y1 = g0.piece.y as int;
        let blocks = self.piece.blocks();
        proof {
            let s = spec_blocks(m, rot_i);
            assert forall|i: int| 0 <= i < 4 implies !block_hit(g0.board, s[i], px, y1) by {
                if block_hit(g0.board, s[i], px, y1) {
                    assert(blocks_hit(g0.board, m, rot_i, px, y1));
                }
            }
            assert(!block_hit(g0.board, s[0], px, y1));
            assert(!block_hit(g0.board, s[1], px, y1));
            assert(!block_hit(g0.board, s[2], px, y1));
            assert(!block_hit(g0.board, s[3], px, y1));
        }
        let ghost cols0 = g0.board.cols@;
        let (dx0, dy0) = blocks[0];
        self.board.set((self.piece.x - dx0) as usize, (self.piece.y - dy0) as usize);
        proof {
            assert(spec_lock_upto(cols0, m, rot_i, px, y1, 0) == cols0);
            assert(self.board.cols@ == spec_lock_upto(cols0, m, rot_i, px, y1, 1));
        }
        let (dx1, dy1) = blocks[1];
        self.board.set((self.piece.x - dx1) as usize, (self.piece.y - dy1) as usize);
        proof {
            assert(self.board.cols@ == spec_lock_upto(cols0, m, rot_i, px, y1, 2));
        }
        let (dx2, dy2) = blocks[2];
        self.board.set((self.piece.x - dx2) as usize, (self.piece.y - dy2) as usize);
        proof {
            assert(self.board.cols@ == spec_lock_upto(cols0, m, rot_i, px, y1, 3));
        }
        let (dx3, dy3) = blocks[3];
        self.board.set((self.piece.x - dx3) as usize, (self.piece.y - dy3) as usize);
        proof {
            assert(self.board.cols@ == spec_lock_upto(cols0, m, rot_i, px, y1, 4));
        }
    }


    /// Soft-drop the piece and compute the row span its blocks cover.
    #[verifier::rlimit(100)]
    fn drop_and_span(&mut self) -> (r: (u8, u8))
        requires
            old(self).wf(),
            old(self).cm_ok(),
            !pose_collides(
                old(self).board,
                old(self).piece.mino,
                old(self).piece.rot as int,
                old(self).piece.x as int,
                old(self).piece.y as int,
            ),
        ensures
            final(self).wf(),
            final(self).cm_ok(),
            ({
                let g0 = *old(self);
                let m = g0.piece.mino;
                let rot = g0.piece.rot as int;
                let px = g0.piece.x as int;
                let y1 = spec_drop_y(g0.board, m, rot, px, g0.piece.y as nat) as int;
                &&& *final(self) == (Game {
                    piece: (Falling { y: y1 as u8, ..g0.piece }),
                    ..g0
                })
                &&& !pose_collides(g0.board, m, rot, px, y1)
                &&& r.0 == y1 - spec_max_dy(m, rot)
                &&& r.1 == y1 - spec_min_dy(m, rot)
                &&& r.0 <= r.1 < 40
                &&& r.1 - r.0 <= 3
            }),
    {
        let ghost g0 = *old(self);
        let ghost m = g0.piece.mino;
        let ghost rot_i = g0.piece.rot as int;
        let ghost px = g0.piece.x as int;
        self.soft_drop();
        proof {
            lemma_drop_props(g0.board, m, rot_i, px, g0.piece.y as nat);
        }
        let ghost y1 = self.piece.y as int;
        let blocks = self.piece.blocks();
        let mut max_y = blocks[0].1;
        let mut min_y = blocks[0].1;
        if blocks[1].1 > max_y {
            max_y = blocks[1].1;
        }
        if blocks[1].1 < min_y {
            min_y = blocks[1].1;
        }
        if blocks[2].1 > max_y {
            max_y = blocks[2].1;
        }
        if blocks[2].1 < min_y {
            min_y = blocks[2].1;
        }
        if blocks[3].1 > max_y {
            max_y = blocks[3].1;
        }
        if blocks[3].1 < min_y {
            min_y = blocks[3].1;
        }
        proof {
            assert(max_y == spec_max_dy(m, rot_i));
            assert(min_y == spec_min_dy(m, rot_i));
            crate::data::lemma_blocks_bounds(m, rot_i);
            let s = spec_blocks(m, rot_i);
            assert forall|i: int| 0 <= i < 4 implies !block_hit(g0.board, s[i], px, y1) by {
                if block_hit(g0.board, s[i], px, y1) {
                    assert(blocks_hit(g0.board, m, rot_i, px, y1));
                }
            }
            assert(!block_hit(g0.board, s[0], px, y1));
            assert(!block_hit(g0.board, s[1], px, y1));
            assert(!block_hit(g0.board, s[2], px, y1));
            assert(!block_hit(g0.board, s[3], px, y1));
        }
        (self.piece.y - max_y, self.piece.y - min_y)
    }

    /// Soft-drop the piece, lock its four blocks, and clear the full rows in
    /// the piece's span.  Returns the cleared-row count and whether a garbage
    /// row was among them.
    #[verifier::loop_isolation(false)]
    #[verifier::rlimit(100)]
    fn lock_and_clear(&mut self) -> (r: (u8, bool))
        requires
            old(self).wf(),
            old(self).cm_ok(),
            !pose_collides(
                old(self).board,
                old(self).piece.mino,
                old(self).piece.rot as int,
                old(self).piece.x as int,
                old(self).piece.y as int,
            ),
        ensures
            final(self).wf(),
            ({
                let g0 = *old(self);
                let m = g0.piece.mino;
                let rot = g0.piece.rot as int;
                let px = g0.piece.x as int;
                let y1 = spec_drop_y(g0.board, m, rot, px, g0.piece.y as nat) as int;
                let cols1 = spec_lock_upto(g0.board.cols@, m, rot, px, y1, 4);
                let mask = seq_full_mask(
                    cols1,
                    (y1 - spec_max_dy(m, rot)) as u64,
                    (y1 - spec_min_dy(m, rot)) as u64,
                );
                let cleared = ones_below(mask, 40) as int;
                let gdrop = ones_below(mask, g0.board.garbage as nat) as int;
                let cols2 = Seq::new(10, |x: int| Board::remove_rows(cols1[x], mask, 40));
                &&& r.0 == cleared
                &&& r.0 <= 4
                &&& r.1 == (gdrop > 0)
                &&& final(self).board.cols@ == cols2
                &&& final(self).board.garbage == g0.board.garbage - gdrop
                &&& final(self).piece == (Falling { y: y1 as u8, ..g0.piece })
                &&& *final(self) == (Game {
                    board: final(self).board,
                    piece: final(self).piece,
                    ..g0
                })
            }),
    {
        let ghost g0 = *old(self);
        let ghost m = g0.piece.mino;
        let ghost rot_i = g0.piece.rot as int;
        let ghost px = g0.piece.x as int;
        let ghost y1 = spec_drop_y(g0.board, m, rot_i, px, g0.piece.y as nat) as int;
        let span = self.drop_and_span();
        let from_row: u8 = span.0;
        let to_row: u8 = span.1;
        let ghost cols0 = g0.board.cols@;
        self.lock_blocks();
        let ghost cols1 = spec_lock_upto(cols0, m, rot_i, px, y1, 4);
        let clear_res = self.board.clear(from_row, to_row);
        let ghost mask = seq_full_mask(cols1, from_row as u64, to_row as u64);
        let ghost cols2 = Seq::new(10, |x: int| Board::remove_rows(cols1[x], mask, 40));
        proof {
            lemma_clear_facts(cols1, from_row as u64, to_row as u64, g0.board.garbage as nat);
            assert forall|x: int| 0 <= x < 10 implies self.board.cols@[x] == cols2[x] by {
                assert(self.board.col(x) == Board::remove_rows(cols1[x], mask, 40));
            }
            assert(self.board.cols@ =~= cols2);
        }
        clear_res
    }

    /// Drop the piece to the floor, lock its four blocks, clear the full rows
    /// in the piece's span, settle combo, back-to-back and damage, exchange
    /// the damage with the pending garbage queue, and pull the next piece.
    /// Returns the rows of damage that go out and the clear classification.
    #[verifier::rlimit(100)]
    #[verifier::spinoff_prover]
    pub fn hard_drop(&mut self, config: &GameConfig) -> (r: (u16, Option<Spin>))
        requires
            old(self).wf(),
            old(self).cm_ok(),
            !pose_collides(
                old(self).board,
                old(self).piece.mino,
                old(self).piece.rot as int,
                old(self).piece.x as int,
                old(self).piece.y as int,
            ),
            old(self).queue_ptr < 32,
            old(self).b2b < 32767,
            old(self).combo < 32767,
            config.pc_b2b <= 32767,
            old(self).b2b + config.pc_b2b <= 32767,
        ensures
            final(self).wf(),
            spec_hard_drop_rel(*old(self), *final(self), r, *config),
            final(self).collision_map == old(self).collision_map,
    {
        let ghost g0 = *old(self);
        let ghost m = g0.piece.mino;
        let ghost rot_i = g0.piece.rot as int;
        let ghost px = g0.piece.x as int;
        let ghost y1 = spec_drop_y(g0.board, m, rot_i, px, g0.piece.y as nat) as int;
        let ghost cols1 = spec_lock_upto(g0.board.cols@, m, rot_i, px, y1, 4);
        let ghost mask = seq_full_mask(
            cols1,
            (y1 - spec_max_dy(m, rot_i)) as u64,
            (y1 - spec_min_dy(m, rot_i)) as u64,
        );
        let ghost cols2 = Seq::new(10, |x: int| Board::remove_rows(cols1[x], mask, 40));
        let clear_res = self.lock_and_clear();
        let cleared: u8 = clear_res.0;
        let garbage_cleared: bool = clear_res.1;
        let pc = self.board.is_pc();
        proof {
            assert forall|x: int| 0 <= x < 10 implies self.board.occ(x, 0) == nth_bit(
                cols2[x],
                0,
            ) by {
                assert(self.board.cols@[x] == cols2[x]);
            }
            if pc {
                assert forall|x: int| 0 <= x < 10 implies !nth_bit(#[trigger] cols2[x], 0) by {
                    assert(!self.board.occ(x, 0));
                }
            } else {
                let xw = choose|x: int| 0 <= x < 10 && self.board.occ(x, 0);
                assert(nth_bit(cols2[xw], 0));
            }
            assert(pc == (forall|x: int| 0 <= x < 10 ==> !nth_bit(#[trigger] cols2[x], 0)));
        }
        let spin0 = self.spin;
        let b2b0 = self.b2b;
        let broke: bool = self.settle_counters(cleared, pc, config);
        let dmg = damage_calc(
            cleared,
            spin0,
            self.b2b,
            self.combo,
            config.combo_table,
            config.b2b_chaining,
        );
        let special_bonus = config.garbage_special_bonus && garbage_cleared && (spin0
            != Spin::NoSpin || cleared >= 4);
        let mult: u64 = config.garbage_multiplier_milli as u64;
        proof {
            assert(dmg * mult <= 400000000 * 4294967295) by {
                vstd::arithmetic::mul::lemma_mul_upper_bound(
                    dmg as int,
                    400000000,
                    mult as int,
                    4294967295,
                );
            }
        }
        let base: u64 = (dmg * mult / 1000 + if special_bonus {
            1000
        } else {
            0
        }) / 1000;
        let mut sent_total: u64 = base;
        if pc {
            sent_total = sent_total + (config.pc_send as u64);
        }
        if broke && config.b2b_charging && (b2b0 as i32) + 1 > (config.b2b_charge_at as i32) {
            let v: i64 = b2b0 as i64 - config.b2b_charge_at as i64 + config.b2b_charge_base as i64
                + 1;
            if v > 0 {
                proof {
                    assert((v as u64) * mult <= 131072 * 4294967295) by {
                        vstd::arithmetic::mul::lemma_mul_upper_bound(
                            v as int,
                            131072,
                            mult as int,
                            4294967295,
                        );
                    }
                }
                let add: u64 = (v as u64) * mult / 1000;
                sent_total = sent_total + add;
            }
        }
        let sent_clamped: u16 = if sent_total > 65535 {
            65535
        } else {
            sent_total as u16
        };
        let sent: u16 = if cleared > 0 {
            self.consume_pending(sent_clamped)
        } else {
            self.land_expired();
            sent_clamped
        };
        self.tick_pending();
        let clear_type: Option<Spin> = if cleared >= 4 {
            Some(Spin::Normal)
        } else if cleared > 0 {
            Some(spin0)
        } else {
            None
        };
        self.spin = Spin::NoSpin;
        self.next_piece();
        proof {
            reveal(spec_hard_drop_rel);
        }
        (sent, clear_type)
    }

    /// The piece collides where it stands: the game is lost at spawn.
    pub fn topped_out(&self) -> (r: bool)
        requires
            self.wf(),
            self.cm_ok(),
        ensures
            r == pose_collides(
                self.board,
                self.piece.mino,
                self.piece.rot as int,
                self.piece.x as int,
                self.piece.y as int,
            ),
    {
        self.collision_map.test(self.piece.x, self.piece.y, self.piece.rot)
    }

    /// Rebuild the collision field for the current board and shape.
    pub fn regen_collision_map(&mut self)
        requires
            old(self).wf(),
        ensures
            final(self).wf(),
            final(self).cm_ok(),
            *final(self) == (Game { collision_map: final(self).collision_map, ..*old(self) }),
    {
        self.collision_map = self.board.collision_map(&self.piece);
    }
}


/// One input applied to a pose, as a pure function: the new pose, the new
/// spin, and whether the state changed (rotations also report plain success).
pub open spec fn spec_step(
    b: Board,
    m: Mino,
    cfg: GameConfig,
    x: int,
    y: int,
    rot: int,
    spin: Spin,
    mv: Move,
) -> (int, int, int, Spin, bool) {
    match mv {
        Move::Left => if pose_collides(b, m, rot, x - 1, y) {
            (x, y, rot, spin, false)
        } else {
            (x - 1, y, rot, spin, true)
        },
        Move::Right => if pose_collides(b, m, rot, x + 1, y) {
            (x, y, rot, spin, false)
        } else {
            (x + 1, y, rot, spin, true)
        },
        Move::SoftDrop => {
            let ny = spec_drop_y(b, m, rot, x, (if y >= 0 {
                y
            } else {
                0
            }) as nat) as int;
            (x, ny, rot, spin, ny != y)
        },
        Move::HardDrop => {
            let ny = spec_drop_y(b, m, rot, x, (if y >= 0 {
                y
            } else {
                0
            }) as nat) as int;
            (x, ny, rot, spin, true)
        },
        Move::DasLeft => {
            let nx = spec_das_left(b, m, rot, (if x >= 0 {
                x
            } else {
                0
            }) as nat, y) as int;
            (nx, y, rot, spin, nx != x)
        },
        Move::DasRight => {
            let nx = spec_das_right(b, m, rot, x, y);
            (nx, y, rot, spin, nx != x)
        },
        Move::CW | Move::CCW | Move::Flip => {
            let d: int = if mv == Move::CW {
                1
            } else if mv == Move::Flip {
                2
            } else {
                3
            };
            let to = (rot + d) % 4;
            let p = spec_rotate_pose(b, m, cfg.kicks, rot, to, x, y);
            if p.3 {
                (p.0, p.1, p.2, spec_update_spin(b, m, p.2, p.0, p.1, cfg.spins, p.5, spin), true)
            } else {
                (x, y, rot, spin, false)
            }
        },
        _ => (x, y, rot, spin, false),
    }
}

/// Auto-shift left never moves into a colliding column.
pub proof fn lemma_das_left_ok(b: Board, m: Mino, rot: int, x: nat, y: int)
    requires
        !pose_collides(b, m, rot, x as int, y),
    ensures
        !pose_collides(b, m, rot, spec_das_left(b, m, rot, x, y) as int, y),
    decreases x,
{
    if !(x == 0 || pose_collides(b, m, rot, x - 1, y)) {
        lemma_das_left_ok(b, m, rot, (x - 1) as nat, y);
    }
}

/// Auto-shift right never moves into a colliding column.
pub proof fn lemma_das_right_ok(b: Board, m: Mino, rot: int, x: int, y: int)
    requires
        !pose_collides(b, m, rot, x, y),
    ensures
        !pose_collides(b, m, rot, spec_das_right(b, m, rot, x, y), y),
    decreases 12 - x,
{
    if !pose_collides(b, m, rot, x + 1, y) {
        lemma_das_right_ok(b, m, rot, x + 1, y);
    }
}

/// The first fitting kick indeed fits.
pub proof fn lemma_first_kick_fits(
    b: Board,
    m: Mino,
    table: KickTable,
    from: int,
    to: int,
    x: int,
    y: int,
    i: int,
)
    requires
        0 <= i,
    ensures
        ({
            let j = spec_first_kick(b, m, table, from, to, x, y, i);
            j < 5 ==> !pose_collides(
                b,
                m,
                to,
                x + spec_kick_row(table, m, spec_kick_index(from, to))[j].0,
                y - spec_kick_row(table, m, spec_kick_index(from, to))[j].1,
            )
        }),
    decreases 5 - i,
{
    if i < 5 {
        let k = spec_kick_row(table, m, spec_kick_index(from, to))[i];
        if pose_collides(b, m, to, x + k.0, y - k.1) {
            lemma_first_kick_fits(b, m, table, from, to, x, y, i + 1);
        }
    }
}

/// A successful step from a free pose lands on a free pose, in range.
pub proof fn lemma_step_ok(
    b: Board,
    m: Mino,
    cfg: GameConfig,
    x: int,
    y: int,
    rot: int,
    spin: Spin,
    mv: Move,
)
    requires
        !pose_collides(b, m, rot, x, y),
        0 <= rot < 4,
    ensures
        ({
            let st = spec_step(b, m, cfg, x, y, rot, spin, mv);
            &&& !pose_collides(b, m, st.2, st.0, st.1)
            &&& 0 <= st.0 < 12
            &&& 0 <= st.1 < 40
            &&& 0 <= st.2 < 4
        }),
{
    let st = spec_step(b, m, cfg, x, y, rot, spin, mv);
    match mv {
        Move::SoftDrop | Move::HardDrop => {
            lemma_drop_props(b, m, rot, x, y as nat);
        },
        Move::DasLeft => {
            lemma_das_left_ok(b, m, rot, x as nat, y);
        },
        Move::DasRight => {
            lemma_das_right_ok(b, m, rot, x, y);
        },
        Move::CW | Move::CCW | Move::Flip => {
            let d: int = if mv == Move::CW {
                1
            } else if mv == Move::Flip {
                2
            } else {
                3
            };
            let to = (rot + d) % 4;
            lemma_first_kick_fits(b, m, cfg.kicks, rot, to, x, y, 0);
        },
        _ => {},
    }
}

/// A sequence of inputs applied to a pose, one step at a time.
pub open spec fn spec_apply_moves(
    b: Board,
    m: Mino,
    cfg: GameConfig,
    x: int,
    y: int,
    rot: int,
    spin: Spin,
    moves: Seq<Move>,
) -> (int, int, int, Spin)
    decreases moves.len(),
{
    if moves.len() == 0 {
        (x, y, rot, spin)
    } else {
        let st = spec_step(b, m, cfg, x, y, rot, spin, moves[0]);
        spec_apply_moves(b, m, cfg, st.0, st.1, st.2, st.3, moves.drop_first())
    }
}

/// Applying one more input steps the result of the sequence so far.
pub proof fn lemma_apply_moves_snoc(
    b: Board,
    m: Mino,
    cfg: GameConfig,
    x: int,
    y: int,
    rot: int,
    spin: Spin,
    moves: Seq<Move>,
    mv: Move,
)
    ensures
        ({
            let f = spec_apply_moves(b, m, cfg, x, y, rot, spin, moves);
            let st = spec_step(b, m, cfg, f.0, f.1, f.2, f.3, mv);
            spec_apply_moves(b, m, cfg, x, y, rot, spin, moves.push(mv)) == (st.0, st.1, st.2, st.3)
        }),
    decreases moves.len(),
{
    if moves.len() == 0 {
        assert(moves.push(mv).drop_first() =~= moves);
        assert(moves.push(mv)[0] == mv);
        let st = spec_step(b, m, cfg, x, y, rot, spin, mv);
        assert(spec_apply_moves(b, m, cfg, x, y, rot, spin, moves) == (x, y, rot, spin));
        assert(spec_apply_moves(b, m, cfg, st.0, st.1, st.2, st.3, moves.push(mv).drop_first())
            == (st.0, st.1, st.2, st.3));
        assert(spec_apply_moves(b, m, cfg, x, y, rot, spin, moves.push(mv)) == (st.0, st.1, st.2,
        st.3));
    } else {
        let st0 = spec_step(b, m, cfg, x, y, rot, spin, moves[0]);
        assert(moves.push(mv)[0] == moves[0]);
        assert(moves.push(mv).drop_first() =~= moves.drop_first().push(mv));
        lemma_apply_moves_snoc(b, m, cfg, st0.0, st0.1, st0.2, st0.3, moves.drop_first(), mv);
        assert(spec_apply_moves(b, m, cfg, x, y, rot, spin, moves.push(mv)) == spec_apply_moves(
            b,
            m,
            cfg,
            st0.0,
            st0.1,
            st0.2,
            st0.3,
            moves.push(mv).drop_first(),
        ));
        assert(spec_apply_moves(b, m, cfg, x, y, rot, spin, moves) == spec_apply_moves(
            b,
            m,
            cfg,
            st0.0,
            st0.1,
            st0.2,
            st0.3,
            moves.drop_first(),
        ));
    }
}

impl Move {
    /// Drive the game by one input.  A hard drop here only drops the piece to
    /// the floor; locking it is the caller's separate step.
    pub fn run(&self, game: &mut Game, config: &GameConfig) -> (r: bool)
        requires
            old(game).wf(),
            old(game).cm_ok(),
            *self != Move::Idle,
            *self != Move::Hold,
        ensures
            final(game).wf(),
            final(game).cm_ok(),
            final(game).piece.mino == old(game).piece.mino,
            final(game).board == old(game).board,
            final(game).queue == old(game).queue,
            final(game).queue_ptr == old(game).queue_ptr,
            final(game).hold == old(game).hold,
            final(game).garbage == old(game).garbage,
            final(game).b2b == old(game).b2b,
            final(game).combo == old(game).combo,
            final(game).collision_map == old(game).collision_map,
            ({
                let g0 = *old(game);
                let st = spec_step(
                    g0.board,
                    g0.piece.mino,
                    *config,
                    g0.piece.x as int,
                    g0.piece.y as int,
                    g0.piece.rot as int,
                    g0.spin,
                    *self,
                );
                &&& final(game).piece.x == st.0
                &&& final(game).piece.y == st.1
                &&& final(game).piece.rot == st.2
                &&& final(game).spin == st.3
                &&& r == st.4
            }),
    {
        match self {
            Move::Left => game.move_left(),
            Move::Right => game.move_right(),
            Move::SoftDrop => game.soft_drop(),
            Move::CCW => game.rotate(3, config).0,
            Move::CW => game.rotate(1, config).0,
            Move::Flip => game.rotate(2, config).0,
            Move::DasLeft => game.das_left(),
            Move::DasRight => game.das_right(),
            Move::HardDrop => {
                game.soft_drop();
                true
            },
            _ => false,
        }
    }
}

} // verus!
