//! The reachability expander: a breadth-first search over piece poses that
//! enumerates every landable pose the current piece can reach, de-duplicated
//! through a caller-provided bitset.
use vstd::prelude::*;

use crate::bits::lemma_bit_or;
use crate::bits::lemma_bit_one;
use crate::bits::lemma_bit_shl;
use crate::bits::nth_bit;
use crate::collision::pose_collides;
use crate::data::Mino;
use crate::data::Move;
use crate::data::Spin;
use crate::board::Board;
use crate::game::lemma_step_ok;
use crate::game::spec_step;
use crate::game::Game;
use crate::game::GameConfig;

verus! {

/// A landable pose: the piece can rest there and cannot fall further.
pub open spec fn spec_landable(b: crate::board::Board, m: Mino, rot: int, x: int, y: int) -> bool {
    &&& !pose_collides(b, m, rot, x, y)
    &&& pose_collides(b, m, rot, x, y - 1)
}

/// The moves tried from a pose reached by `last`; `Idle` ends the list.
/// Trivially inverse pairs are left out.
pub open spec fn spec_allowed(last: Move) -> Seq<Move> {
    match last {
        Move::Idle => seq![
            Move::CW,
            Move::CCW,
            Move::Flip,
            Move::Left,
            Move::Right,
            Move::SoftDrop,
        ],
        Move::Left => seq![Move::CW, Move::CCW, Move::Flip, Move::Left, Move::SoftDrop, Move::Idle],
        Move::Right => seq![
            Move::CW,
            Move::CCW,
            Move::Flip,
            Move::Right,
            Move::SoftDrop,
            Move::Idle,
        ],
        Move::SoftDrop => seq![
            Move::CW,
            Move::CCW,
            Move::Flip,
            Move::Left,
            Move::Right,
            Move::Idle,
        ],
        Move::CCW => seq![Move::CCW, Move::Flip, Move::Left, Move::Right, Move::SoftDrop, Move::Idle],
        Move::CW => seq![Move::CW, Move::Flip, Move::Left, Move::Right, Move::SoftDrop, Move::Idle],
        Move::Flip => seq![Move::CW, Move::CCW, Move::Left, Move::Right, Move::SoftDrop, Move::Idle],
        _ => seq![Move::Idle, Move::Idle, Move::Idle, Move::Idle, Move::Idle, Move::Idle],
    }
}

/// The moves tried from a pose reached by `last`; `Idle` ends the list.
/// Trivially inverse pairs are left out.
pub fn allowed_moves(last: Move) -> (r: [Move; 6])
    ensures
        r@ == spec_allowed(last),
        forall|i: int|
            0 <= i < 6 ==> (#[trigger] r@[i]) != Move::Hold && r@[i] != Move::HardDrop && r@[i]
                != Move::DasLeft && r@[i] != Move::DasRight,
{
    let r = match last {
        Move::Idle => [Move::CW, Move::CCW, Move::Flip, Move::Left, Move::Right, Move::SoftDrop],
        Move::Left => [Move::CW, Move::CCW, Move::Flip, Move::Left, Move::SoftDrop, Move::Idle],
        Move::Right => [Move::CW, Move::CCW, Move::Flip, Move::Right, Move::SoftDrop, Move::Idle],
        Move::SoftDrop => [Move::CW, Move::CCW, Move::Flip, Move::Left, Move::Right, Move::Idle],
        Move::CCW => [Move::CCW, Move::Flip, Move::Left, Move::Right, Move::SoftDrop, Move::Idle],
        Move::CW => [Move::CW, Move::Flip, Move::Left, Move::Right, Move::SoftDrop, Move::Idle],
        Move::Flip => [Move::CW, Move::CCW, Move::Left, Move::Right, Move::SoftDrop, Move::Idle],
        _ => [Move::Idle, Move::Idle, Move::Idle, Move::Idle, Move::Idle, Move::Idle],
    };
    proof {
        assert(r@ =~= spec_allowed(last));
    }
    r
}

/// Numeric code of a spin classification inside a compressed pose key.
pub open spec fn spec_spin_code(s: Spin) -> u16 {
    match s {
        Spin::NoSpin => 0,
        Spin::Mini => 1,
        Spin::Normal => 2,
    }
}

/// Numeric code of a spin classification inside a compressed pose key.
pub fn spin_code(s: Spin) -> (r: u16)
    ensures
        r == spec_spin_code(s),
        r <= 2,
{
    match s {
        Spin::NoSpin => 0,
        Spin::Mini => 1,
        Spin::Normal => 2,
    }
}

/// The de-duplication key of an emitted pose.  The single orientation of the
/// O shape zeroes the rotation and spin fields.
pub open spec fn spec_pose_key(m: Mino, x: u8, y: u8, rot: u8, spin: Spin) -> u16 {
    let base = (x as u16 & 0xF) | ((y as u16 & 0x3F) << 4u16);
    if m == Mino::O {
        base
    } else {
        base | (((rot as u16) & 0x3) << 10u16) | ((spec_spin_code(spin) & 0x3) << 12u16)
    }
}


/// One breadth-first step of the expander on the abstract search state
/// `(queue, bitsets, emitted poses)`: apply `mv` to the node's pose, record
/// the landing on a fresh soft drop, and enqueue a fresh successful pose.
pub open spec fn spec_expand_move(
    b: Board,
    m: Mino,
    cfg: GameConfig,
    node: (u8, u8, u8, Spin, Move),
    st: (Seq<(u8, u8, u8, Spin, Move)>, Seq<u64>, Seq<(u8, u8, u8, Spin)>),
    mv: Move,
) -> (Seq<(u8, u8, u8, Spin, Move)>, Seq<u64>, Seq<(u8, u8, u8, Spin)>) {
    let s = spec_step(b, m, cfg, node.0 as int, node.1 as int, node.2 as int, node.3, mv);
    let nx = s.0 as u8;
    let ny = s.1 as u8;
    let nrot = s.2 as u8;
    let nspin = s.3;
    let key = spec_pose_key(m, nx, ny, nrot, nspin);
    let idx = key as int / 64;
    let bitpos = (key % 64) as u64;
    let st1 = if mv == Move::SoftDrop && !nth_bit(st.1[1024 + idx], bitpos) {
        (
            st.0,
            st.1.update(1024 + idx, st.1[1024 + idx] | (1u64 << bitpos)),
            if st.2.len() < 512 {
                st.2.push((nx, ny, nrot, nspin))
            } else {
                st.2
            },
        )
    } else {
        st
    };
    if s.4 && !nth_bit(st1.1[idx], bitpos) && st1.0.len() < 512 {
        (
            st1.0.push((nx, ny, nrot, nspin, mv)),
            st1.1.update(idx, st1.1[idx] | (1u64 << bitpos)),
            st1.2,
        )
    } else {
        st1
    }
}

/// The expander's moves for one dequeued node, tried in order until the move
/// list ends.
pub open spec fn spec_expand_node(
    b: Board,
    m: Mino,
    cfg: GameConfig,
    node: (u8, u8, u8, Spin, Move),
    st: (Seq<(u8, u8, u8, Spin, Move)>, Seq<u64>, Seq<(u8, u8, u8, Spin)>),
    i: int,
) -> (Seq<(u8, u8, u8, Spin, Move)>, Seq<u64>, Seq<(u8, u8, u8, Spin)>)
    decreases 6 - i,
{
    if i < 0 || i >= 6 {
        st
    } else {
        let mv = spec_allowed(node.4)[i];
        if mv == Move::Idle {
            st
        } else {
            spec_expand_node(b, m, cfg, node, spec_expand_move(b, m, cfg, node, st, mv), i + 1)
        }
    }
}

/// The whole breadth-first search from queue position `front` onward.
pub open spec fn spec_expand_from(
    b: Board,
    m: Mino,
    cfg: GameConfig,
    st: (Seq<(u8, u8, u8, Spin, Move)>, Seq<u64>, Seq<(u8, u8, u8, Spin)>),
    front: int,
) -> (Seq<(u8, u8, u8, Spin, Move)>, Seq<u64>, Seq<(u8, u8, u8, Spin)>)
    decreases 512 - front,
{
    if front < 0 || front >= st.0.len() || st.0.len() > 512 {
        st
    } else {
        spec_expand_from(b, m, cfg, spec_expand_node(b, m, cfg, st.0[front], st, 0), front + 1)
    }
}

/// The poses the expander emits for a piece of shape `m` starting at
/// `(x, y, rot)` on board `b`: the breadth-first search run to completion
/// from the single seeded node on clean bitsets.  The expander's result is
/// exactly this sequence, so equal inputs give equal outputs.
pub open spec fn spec_expand_poses(b: Board, m: Mino, x: u8, y: u8, rot: u8, cfg: GameConfig) -> Seq<
    (u8, u8, u8, Spin),
> {
    let st0 = (
        seq![(x, y, rot, Spin::NoSpin, Move::Idle)],
        Seq::new(2048, |k: int| 0u64),
        Seq::<(u8, u8, u8, Spin)>::empty(),
    );
    spec_expand_from(b, m, cfg, st0, 0).2
}

/// Enumerate every landable pose reachable from the current piece by any
/// sequence of shifts, rotations and soft drops, writing up to 512 tuples
/// `(x, y, rot, spin)` into `res`.  The emitted prefix equals
/// [`spec_expand_poses`] of the board, shape and start pose, so running the
/// expander twice on the same input yields identical results.  Every emitted
/// pose is free and rests on something, and no pose key repeats.  The game is
/// handed back unchanged; `passed` is scratch.  Returns the number of poses
/// emitted and a node counter.
#[verifier::loop_isolation(false)]
#[verifier::rlimit(100)]
pub fn expand(
    state: &mut Game,
    config: &GameConfig,
    passed: &mut [u64; 2048],
    res: &mut [(u8, u8, u8, Spin); 512],
) -> (r: (usize, u64))
    requires
        old(state).wf(),
        old(state).cm_ok(),
        !pose_collides(
            old(state).board,
            old(state).piece.mino,
            old(state).piece.rot as int,
            old(state).piece.x as int,
            old(state).piece.y as int,
        ),
    ensures
        *final(state) == *old(state),
        r.0 <= 512,
        r.0 == spec_expand_poses(
            old(state).board,
            old(state).piece.mino,
            old(state).piece.x,
            old(state).piece.y,
            old(state).piece.rot,
            *config,
        ).len(),
        final(res)@.subrange(0, r.0 as int) == spec_expand_poses(
            old(state).board,
            old(state).piece.mino,
            old(state).piece.x,
            old(state).piece.y,
            old(state).piece.rot,
            *config,
        ),
        forall|i: int|
            0 <= i < r.0 ==> ({
                let p = #[trigger] final(res)@[i];
                &&& p.2 < 4
                &&& spec_landable(
                    old(state).board,
                    old(state).piece.mino,
                    p.2 as int,
                    p.0 as int,
                    p.1 as int,
                )
            }),
        forall|i: int, j: int|
            0 <= i < j < r.0 ==> spec_pose_key(
                old(state).piece.mino,
                final(res)@[i].0,
                final(res)@[i].1,
                final(res)@[i].2,
                final(res)@[i].3,
            ) != spec_pose_key(
                old(state).piece.mino,
                final(res)@[j].0,
                final(res)@[j].1,
                final(res)@[j].2,
                final(res)@[j].3,
            ),
{
    proof {
        lemma_bit_or();
        lemma_bit_shl();
        lemma_bit_one();
    }
    let ghost g0 = *old(state);
    let ghost b = g0.board;
    let ghost m = g0.piece.mino;
    let px0 = state.piece.x;
    let py0 = state.piece.y;
    let pr0 = state.piece.rot;
    let sp0 = state.spin;
    let mut i: usize = 0;
    while i < 2048
        invariant
            *state == g0,
            forall|k: int| 0 <= k < i ==> (#[trigger] passed@[k]) == 0,
        decreases 2048 - i,
    {
        let ghost pb = passed@;
        passed[i] = 0;
        proof {
            assert(passed@ == pb.update(i as int, 0u64));
        }
        i = i + 1;
    }
    let mut queue: Vec<(u8, u8, u8, Spin, Move)> = Vec::new();
    queue.push((state.piece.x, state.piece.y, state.piece.rot, Spin::NoSpin, Move::Idle));
    let mut front: usize = 0;
    let mut res_ptr: usize = 0;
    let mut nodes: u64 = 0;
    let ghost st0 = (
        seq![(g0.piece.x, g0.piece.y, g0.piece.rot, Spin::NoSpin, Move::Idle)],
        Seq::new(2048, |k: int| 0u64),
        Seq::<(u8, u8, u8, Spin)>::empty(),
    );
    proof {
        assert(queue@ =~= st0.0);
        assert(passed@ =~= st0.1);
        assert(res@.subrange(0, 0) =~= st0.2);
    }
    while front < queue.len()
        invariant
            state.board == b,
            state.piece.mino == m,
            state.collision_map == g0.collision_map,
            state.queue == g0.queue,
            state.queue_ptr == g0.queue_ptr,
            state.hold == g0.hold,
            state.garbage == g0.garbage,
            state.b2b == g0.b2b,
            state.combo == g0.combo,
            state.piece.rot < 4,
            state.piece.x < 12,
            state.piece.y < 40,
            front <= queue@.len() <= 512,
            res_ptr <= 512,
            nodes <= 6 * (front as int),
            forall|k: int|
                0 <= k < queue@.len() ==> ({
                    let n = #[trigger] queue@[k];
                    &&& n.2 < 4
                    &&& n.0 < 12
                    &&& n.1 < 40
                    &&& !pose_collides(b, m, n.2 as int, n.0 as int, n.1 as int)
                    &&& n.4 != Move::Hold
                }),
            forall|k: int|
                0 <= k < res_ptr ==> ({
                    let p = #[trigger] res@[k];
                    &&& p.2 < 4
                    &&& spec_landable(b, m, p.2 as int, p.0 as int, p.1 as int)
                }),
            forall|k: int|
                0 <= k < res_ptr ==> nth_bit(
                    #[trigger] passed@[1024 + spec_pose_key(m, res@[k].0, res@[k].1, res@[k].2, res@[k].3) as int / 64],
                    (spec_pose_key(m, res@[k].0, res@[k].1, res@[k].2, res@[k].3) % 64) as u64,
                ),
            forall|k1: int, k2: int|
                0 <= k1 < k2 < res_ptr ==> spec_pose_key(
                    m,
                    res@[k1].0,
                    res@[k1].1,
                    res@[k1].2,
                    res@[k1].3,
                ) != spec_pose_key(m, res@[k2].0, res@[k2].1, res@[k2].2, res@[k2].3),
            spec_expand_from(b, m, *config, st0, 0) == spec_expand_from(
                b,
                m,
                *config,
                (queue@, passed@, res@.subrange(0, res_ptr as int)),
                front as int,
            ),
        decreases 512 - front,
    {
        let node = queue[front];
        front = front + 1;
        let ghost front0 = front as int - 1;
        let ghost st_enter = (queue@, passed@, res@.subrange(0, res_ptr as int));
        let moves = allowed_moves(node.4);
        let mut mi: usize = 0;
        while mi < 6
            invariant
                mi <= 6,
                state.board == b,
                state.piece.mino == m,
                state.collision_map == g0.collision_map,
                state.queue == g0.queue,
                state.queue_ptr == g0.queue_ptr,
                state.hold == g0.hold,
                state.garbage == g0.garbage,
                state.b2b == g0.b2b,
                state.combo == g0.combo,
                state.piece.rot < 4,
                state.piece.x < 12,
                state.piece.y < 40,
                front <= queue@.len() <= 512,
                1 <= front,
                res_ptr <= 512,
                nodes <= 6 * (front as int - 1) + mi,
                node.2 < 4 && node.0 < 12 && node.1 < 40,
                !pose_collides(b, m, node.2 as int, node.0 as int, node.1 as int),
                forall|i2: int|
                    0 <= i2 < 6 ==> (#[trigger] moves@[i2]) != Move::Hold && moves@[i2]
                        != Move::HardDrop && moves@[i2] != Move::DasLeft && moves@[i2]
                        != Move::DasRight,
                forall|k: int|
                    0 <= k < queue@.len() ==> ({
                        let n = #[trigger] queue@[k];
                        &&& n.2 < 4
                        &&& n.0 < 12
                        &&& n.1 < 40
                        &&& !pose_collides(b, m, n.2 as int, n.0 as int, n.1 as int)
                        &&& n.4 != Move::Hold
                    }),
                forall|k: int|
                    0 <= k < res_ptr ==> ({
                        let p = #[trigger] res@[k];
                        &&& p.2 < 4
                        &&& spec_landable(b, m, p.2 as int, p.0 as int, p.1 as int)
                    }),
            forall|k: int|
                0 <= k < res_ptr ==> nth_bit(
                    #[trigger] passed@[1024 + spec_pose_key(m, res@[k].0, res@[k].1, res@[k].2, res@[k].3) as int / 64],
                    (spec_pose_key(m, res@[k].0, res@[k].1, res@[k].2, res@[k].3) % 64) as u64,
                ),
            forall|k1: int, k2: int|
                0 <= k1 < k2 < res_ptr ==> spec_pose_key(
                    m,
                    res@[k1].0,
                    res@[k1].1,
                    res@[k1].2,
                    res@[k1].3,
                ) != spec_pose_key(m, res@[k2].0, res@[k2].1, res@[k2].2, res@[k2].3),
            moves@ == spec_allowed(node.4),
            spec_expand_node(b, m, *config, node, st_enter, 0) == spec_expand_node(
                b,
                m,
                *config,
                node,
                (queue@, passed@, res@.subrange(0, res_ptr as int)),
                mi as int,
            ),
            decreases 6 - mi,
        {
            let mv = moves[mi];
            if matches!(mv, Move::Idle) {
                proof {
                    let cur = (queue@, passed@, res@.subrange(0, res_ptr as int));
                    assert(spec_expand_node(b, m, *config, node, cur, mi as int) == cur);
                    assert(spec_expand_node(b, m, *config, node, cur, 6) == cur);
                }
                mi = 6;
            } else {
                let ghost st_in = (queue@, passed@, res@.subrange(0, res_ptr as int));
                nodes = nodes + 1;
                state.piece.x = node.0;
                state.piece.y = node.1;
                state.piece.rot = node.2;
                state.spin = node.3;
                proof {
                    lemma_step_ok(
                        b,
                        m,
                        *config,
                        node.0 as int,
                        node.1 as int,
                        node.2 as int,
                        node.3,
                        mv,
                    );
                }
                let ok = mv.run(state, config);
                let fail = !ok;
                let mut compressed: u16 = (state.piece.x as u16 & 0xF) | ((state.piece.y as u16
                    & 0x3F) << 4u16);
                if !matches!(state.piece.mino, Mino::O) {
                    compressed = compressed | (((state.piece.rot as u16) & 0x3) << 10u16) | ((
                    spin_code(state.spin) & 0x3) << 12u16);
                }
                let idx: usize = (compressed / 64) as usize;
                let bit: u64 = 1u64 << ((compressed % 64) as u64);
                proof {
                    assert(idx < 1024);
                }
                proof {
                    assert(compressed == spec_pose_key(
                        m,
                        state.piece.x,
                        state.piece.y,
                        state.piece.rot,
                        state.spin,
                    ));
                }
                let is_drop = matches!(mv, Move::SoftDrop);
                let was_new_land = passed[1024 + idx] & bit == 0;
                let fresh_q = passed[idx] & bit == 0;
                let qroom = queue.len() < 512;
                let res_room = res_ptr < 512;
                if is_drop && was_new_land {
                    let ghost pb = passed@;
                    passed[1024 + idx] = passed[1024 + idx] | bit;
                    proof {
                        assert(passed@ == pb.update(1024 + idx as int, pb[1024 + idx as int]
                            | bit));
                        assert(nth_bit(passed@[1024 + idx as int], (compressed % 64) as u64));
                        assert forall|k: int|
                            0 <= k < res_ptr implies nth_bit(
                            #[trigger] passed@[1024 + spec_pose_key(
                                m,
                                res@[k].0,
                                res@[k].1,
                                res@[k].2,
                                res@[k].3,
                            ) as int / 64],
                            (spec_pose_key(m, res@[k].0, res@[k].1, res@[k].2, res@[k].3)
                                % 64) as u64,
                        ) by {
                            let ok = spec_pose_key(m, res@[k].0, res@[k].1, res@[k].2, res@[k].3);
                            if 1024 + ok as int / 64 == 1024 + idx as int {
                                assert(nth_bit(pb[1024 + ok as int / 64], (ok % 64) as u64));
                            } else {
                                assert(passed@[1024 + ok as int / 64] == pb[1024 + ok as int / 64]);
                            }
                        }
                        assert forall|k: int|
                            0 <= k < res_ptr implies spec_pose_key(
                            m,
                            res@[k].0,
                            res@[k].1,
                            res@[k].2,
                            res@[k].3,
                        ) != compressed by {
                            let ok = spec_pose_key(m, res@[k].0, res@[k].1, res@[k].2, res@[k].3);
                            if ok == compressed {
                                assert(nth_bit(pb[1024 + idx as int], (compressed % 64) as u64));
                                assert(false);
                            }
                        }
                    }
                    if res_room {
                        let ghost resb = res@;
                        res[res_ptr] = (state.piece.x, state.piece.y, state.piece.rot, state.spin);
                        proof {
                            assert(res@ == resb.update(
                                res_ptr as int,
                                (state.piece.x, state.piece.y, state.piece.rot, state.spin),
                            ));
                            crate::game::lemma_drop_props(
                                b,
                                m,
                                node.2 as int,
                                node.0 as int,
                                node.1 as nat,
                            );
                        }
                        res_ptr = res_ptr + 1;
                    }
                }
                if !fail && fresh_q && qroom {
                    let ghost pb2 = passed@;
                    passed[idx] = passed[idx] | bit;
                    proof {
                        assert(passed@ == pb2.update(idx as int, pb2[idx as int] | bit));
                        assert forall|k: int|
                            0 <= k < res_ptr implies nth_bit(
                            #[trigger] passed@[1024 + spec_pose_key(
                                m,
                                res@[k].0,
                                res@[k].1,
                                res@[k].2,
                                res@[k].3,
                            ) as int / 64],
                            (spec_pose_key(m, res@[k].0, res@[k].1, res@[k].2, res@[k].3)
                                % 64) as u64,
                        ) by {
                            let ok = spec_pose_key(m, res@[k].0, res@[k].1, res@[k].2, res@[k].3);
                            assert(passed@[1024 + ok as int / 64] == pb2[1024 + ok as int / 64]);
                        }
                    }
                    queue.push(
                        (state.piece.x, state.piece.y, state.piece.rot, state.spin, mv),
                    );
                }
                proof {
                    let cfgv = *config;
                    let s = spec_step(
                        b,
                        m,
                        cfgv,
                        node.0 as int,
                        node.1 as int,
                        node.2 as int,
                        node.3,
                        mv,
                    );
                    assert(state.piece.x == s.0 as u8 && state.piece.y == s.1 as u8
                        && state.piece.rot == s.2 as u8 && state.spin == s.3 && ok == s.4);
                    let stm = spec_expand_move(b, m, cfgv, node, st_in, mv);
                    assert(compressed == spec_pose_key(
                        m,
                        s.0 as u8,
                        s.1 as u8,
                        s.2 as u8,
                        s.3,
                    ));
                    assert(passed@ =~= stm.1);
                    assert(queue@ =~= stm.0);
                    assert(res@.subrange(0, res_ptr as int) =~= stm.2);
                    assert((queue@, passed@, res@.subrange(0, res_ptr as int)) == stm);
                    assert(spec_expand_node(b, m, cfgv, node, st_in, mi as int)
                        == spec_expand_node(b, m, cfgv, node, stm, mi as int + 1));
                }
                mi = mi + 1;
            }
        }
        proof {
            assert(node == st_enter.0[front0]);
            assert(spec_expand_from(b, m, *config, st_enter, front0) == spec_expand_from(
                b,
                m,
                *config,
                spec_expand_node(b, m, *config, node, st_enter, 0),
                front0 + 1,
            ));
            let cur = (queue@, passed@, res@.subrange(0, res_ptr as int));
            assert(spec_expand_node(b, m, *config, node, cur, 6) == cur);
            assert(spec_expand_node(b, m, *config, node, st_enter, 0) == cur);
        }
    }
    proof {
        let cur = (queue@, passed@, res@.subrange(0, res_ptr as int));
        assert(spec_expand_from(b, m, *config, cur, front as int) == cur);
        assert(res@.subrange(0, res_ptr as int) == spec_expand_poses(
            b,
            m,
            g0.piece.x,
            g0.piece.y,
            g0.piece.rot,
            *config,
        ));
    }
    state.piece.x = px0;
    state.piece.y = py0;
    state.piece.rot = pr0;
    state.spin = sp0;
    proof {
        assert(state.piece == g0.piece);
        assert(*state == g0);
    }
    (res_ptr, nodes)
}

} // verus!
