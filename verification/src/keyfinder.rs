//! The key-path reconstructor: a breadth-first search over poses and input
//! histories that finds an input sequence placing the current piece onto a
//! target pose with the target spin.
use vstd::prelude::*;

use crate::collision::pose_collides;
use crate::data::spec_blocks;
use crate::data::Mino;
use crate::data::Move;
use crate::data::Spin;
use crate::bits::nth_bit;
use crate::board::Board;
use crate::expand::spec_spin_code;
use crate::game::lemma_apply_moves_snoc;
use crate::game::lemma_step_ok;
use crate::game::spec_apply_moves;
use crate::game::spec_step;
use crate::game::Game;
use crate::game::GameConfig;

verus! {

/// Absolute cell of block `i` of a piece at `(x, y)` and rotation `rot`.
pub open spec fn spec_cell(m: Mino, rot: int, x: int, y: int, i: int) -> (int, int) {
    let blk = spec_blocks(m, rot)[i];
    (x - blk.0, y - blk.1)
}

/// Cell `i` of the piece at the first pose is one of the four cells of the
/// piece at the second pose.
pub open spec fn spec_cell_in(
    m: Mino,
    rot: int,
    x: int,
    y: int,
    i: int,
    trot: int,
    tx: int,
    ty: int,
) -> bool {
    ||| spec_cell(m, rot, x, y, i) == spec_cell(m, trot, tx, ty, 0)
    ||| spec_cell(m, rot, x, y, i) == spec_cell(m, trot, tx, ty, 1)
    ||| spec_cell(m, rot, x, y, i) == spec_cell(m, trot, tx, ty, 2)
    ||| spec_cell(m, rot, x, y, i) == spec_cell(m, trot, tx, ty, 3)
}

/// Every cell of the piece at the first pose appears among the cells of the
/// piece at the second pose.
pub open spec fn spec_blocks_match(
    m: Mino,
    rot: int,
    x: int,
    y: int,
    trot: int,
    tx: int,
    ty: int,
) -> bool {
    &&& spec_cell_in(m, rot, x, y, 0, trot, tx, ty)
    &&& spec_cell_in(m, rot, x, y, 1, trot, tx, ty)
    &&& spec_cell_in(m, rot, x, y, 2, trot, tx, ty)
    &&& spec_cell_in(m, rot, x, y, 3, trot, tx, ty)
}


/// The key search's successor moves as a sequence; `Idle` ends the list.
pub open spec fn spec_key_moves(last: Move) -> Seq<Move> {
    match last {
        Move::Idle => seq![
            Move::CW,
            Move::CCW,
            Move::Flip,
            Move::Left,
            Move::Right,
            Move::SoftDrop,
            Move::DasLeft,
            Move::DasRight,
            Move::HardDrop,
        ],
        Move::Left => seq![
            Move::CW,
            Move::CCW,
            Move::Flip,
            Move::Left,
            Move::SoftDrop,
            Move::DasRight,
            Move::HardDrop,
            Move::Idle,
            Move::Idle,
        ],
        Move::Right => seq![
            Move::CW,
            Move::CCW,
            Move::Flip,
            Move::Right,
            Move::SoftDrop,
            Move::DasLeft,
            Move::HardDrop,
            Move::Idle,
            Move::Idle,
        ],
        Move::SoftDrop => seq![
            Move::CW,
            Move::CCW,
            Move::Flip,
            Move::Left,
            Move::Right,
            Move::DasLeft,
            Move::DasRight,
            Move::Idle,
            Move::Idle,
        ],
        Move::CCW => seq![
            Move::CW,
            Move::CCW,
            Move::Flip,
            Move::Left,
            Move::Right,
            Move::SoftDrop,
            Move::DasLeft,
            Move::DasRight,
            Move::HardDrop,
        ],
        Move::CW => seq![
            Move::CW,
            Move::CCW,
            Move::Flip,
            Move::Left,
            Move::Right,
            Move::SoftDrop,
            Move::DasLeft,
            Move::DasRight,
            Move::HardDrop,
        ],
        Move::Flip => seq![
            Move::CW,
            Move::CCW,
            Move::Left,
            Move::Right,
            Move::SoftDrop,
            Move::DasLeft,
            Move::DasRight,
            Move::HardDrop,
            Move::Idle,
        ],
        Move::DasLeft => seq![
            Move::CW,
            Move::CCW,
            Move::Flip,
            Move::Right,
            Move::SoftDrop,
            Move::DasRight,
            Move::HardDrop,
            Move::Idle,
            Move::Idle,
        ],
        Move::DasRight => seq![
            Move::CW,
            Move::CCW,
            Move::Flip,
            Move::Left,
            Move::SoftDrop,
            Move::DasLeft,
            Move::HardDrop,
            Move::Idle,
            Move::Idle,
        ],
        _ => seq![
            Move::Idle,
            Move::Idle,
            Move::Idle,
            Move::Idle,
            Move::Idle,
            Move::Idle,
            Move::Idle,
            Move::Idle,
            Move::Idle,
        ],
    }
}

/// One move tried by the key search on the abstract state `(queue, bitset)`:
/// a hard drop tests the landing against the target, any other move enqueues
/// a fresh successful pose with its extended history.
pub open spec fn spec_keys_move(
    b: Board,
    m: Mino,
    cfg: GameConfig,
    target: (u8, u8, u8, Spin),
    node: (u8, u8, u8, Spin, Seq<Move>),
    st: (Seq<(u8, u8, u8, Spin, Seq<Move>)>, Seq<u64>),
    mv: Move,
) -> ((Seq<(u8, u8, u8, Spin, Seq<Move>)>, Seq<u64>), Option<Seq<Move>>) {
    let s = spec_step(b, m, cfg, node.0 as int, node.1 as int, node.2 as int, node.3, mv);
    if mv == Move::HardDrop {
        if s.2 % 2 == target.2 % 2 && s.3 == target.3 && spec_blocks_match(
            m,
            s.2,
            s.0,
            s.1,
            target.2 as int,
            target.0 as int,
            target.1 as int,
        ) {
            (st, Some(node.4.push(Move::HardDrop)))
        } else {
            (st, None)
        }
    } else {
        let nx = s.0 as u8;
        let ny = s.1 as u8;
        let nrot = s.2 as u8;
        let key = (nx as u16 & 0xF) | ((ny as u16 & 0x3F) << 4u16) | (((nrot as u16) & 0x3)
            << 10u16) | ((spec_spin_code(s.3) & 0x3) << 12u16);
        let idx = key as int / 64;
        let bitpos = (key % 64) as u64;
        if s.4 && node.4.len() < 64 && !nth_bit(st.1[idx], bitpos) && st.0.len() < 2048 {
            (
                (
                    st.0.push((nx, ny, nrot, s.3, node.4.push(mv))),
                    st.1.update(idx, st.1[idx] | (1u64 << bitpos)),
                ),
                None,
            )
        } else {
            (st, None)
        }
    }
}

/// The key search's moves for one dequeued node, in order, stopping at the
/// first success or at the end of the move list.
pub open spec fn spec_keys_node(
    b: Board,
    m: Mino,
    cfg: GameConfig,
    target: (u8, u8, u8, Spin),
    node: (u8, u8, u8, Spin, Seq<Move>),
    st: (Seq<(u8, u8, u8, Spin, Seq<Move>)>, Seq<u64>),
    i: int,
) -> ((Seq<(u8, u8, u8, Spin, Seq<Move>)>, Seq<u64>), Option<Seq<Move>>)
    decreases 9 - i,
{
    if i < 0 || i >= 9 {
        (st, None)
    } else {
        let last = if node.4.len() == 0 {
            Move::Idle
        } else {
            node.4.last()
        };
        let mv = spec_key_moves(last)[i];
        if mv == Move::Idle {
            (st, None)
        } else {
            let r = spec_keys_move(b, m, cfg, target, node, st, mv);
            if r.1 is Some {
                r
            } else {
                spec_keys_node(b, m, cfg, target, node, r.0, i + 1)
            }
        }
    }
}

/// The whole key search from queue position `front` onward.
pub open spec fn spec_keys_from(
    b: Board,
    m: Mino,
    cfg: GameConfig,
    target: (u8, u8, u8, Spin),
    st: (Seq<(u8, u8, u8, Spin, Seq<Move>)>, Seq<u64>),
    front: int,
) -> Option<Seq<Move>>
    decreases 2048 - front,
{
    if front < 0 || front >= st.0.len() || st.0.len() > 2048 {
        None
    } else {
        let r = spec_keys_node(b, m, cfg, target, st.0[front], st, 0);
        if r.1 is Some {
            r.1
        } else {
            spec_keys_from(b, m, cfg, target, r.0, front + 1)
        }
    }
}

/// The key sequence the search finds for a piece of shape `m` starting at
/// `(x, y, rot)` on board `b`, if any: the breadth-first search run to
/// completion from the single seeded node on a clean bitset.  The search's
/// result is exactly this value, so equal inputs give equal outputs.
pub open spec fn spec_find_keys(
    b: Board,
    m: Mino,
    cfg: GameConfig,
    x: u8,
    y: u8,
    rot: u8,
    target: (u8, u8, u8, Spin),
) -> Option<Seq<Move>> {
    let st0 = (
        seq![(x, y, rot, Spin::NoSpin, Seq::<Move>::empty())],
        Seq::new(1024, |k: int| 0u64),
    );
    spec_keys_from(b, m, cfg, target, st0, 0)
}

/// Successor moves in the key search, keyed by the last move; `Idle` ends the
/// list.  The alphabet adds auto-shifts and the final hard drop.
fn key_moves(last: Move) -> (r: [Move; 9])
    ensures
        r@ == spec_key_moves(last),
        forall|i: int| 0 <= i < 9 ==> (#[trigger] r@[i]) != Move::Hold,
{
    let r = match last {
        Move::Idle => [
            Move::CW,
            Move::CCW,
            Move::Flip,
            Move::Left,
            Move::Right,
            Move::SoftDrop,
            Move::DasLeft,
            Move::DasRight,
            Move::HardDrop,
        ],
        Move::Left => [
            Move::CW,
            Move::CCW,
            Move::Flip,
            Move::Left,
            Move::SoftDrop,
            Move::DasRight,
            Move::HardDrop,
            Move::Idle,
            Move::Idle,
        ],
        Move::Right => [
            Move::CW,
            Move::CCW,
            Move::Flip,
            Move::Right,
            Move::SoftDrop,
            Move::DasLeft,
            Move::HardDrop,
            Move::Idle,
            Move::Idle,
        ],
        Move::SoftDrop => [
            Move::CW,
            Move::CCW,
            Move::Flip,
            Move::Left,
            Move::Right,
            Move::DasLeft,
            Move::DasRight,
            Move::Idle,
            Move::Idle,
        ],
        Move::CCW => [
            Move::CW,
            Move::CCW,
            Move::Flip,
            Move::Left,
            Move::Right,
            Move::SoftDrop,
            Move::DasLeft,
            Move::DasRight,
            Move::HardDrop,
        ],
        Move::CW => [
            Move::CW,
            Move::CCW,
            Move::Flip,
            Move::Left,
            Move::Right,
            Move::SoftDrop,
            Move::DasLeft,
            Move::DasRight,
            Move::HardDrop,
        ],
        Move::Flip => [
            Move::CW,
            Move::CCW,
            Move::Left,
            Move::Right,
            Move::SoftDrop,
            Move::DasLeft,
            Move::DasRight,
            Move::HardDrop,
            Move::Idle,
        ],
        Move::DasLeft => [
            Move::CW,
            Move::CCW,
            Move::Flip,
            Move::Right,
            Move::SoftDrop,
            Move::DasRight,
            Move::HardDrop,
            Move::Idle,
            Move::Idle,
        ],
        Move::DasRight => [
            Move::CW,
            Move::CCW,
            Move::Flip,
            Move::Left,
            Move::SoftDrop,
            Move::DasLeft,
            Move::HardDrop,
            Move::Idle,
            Move::Idle,
        ],
        _ => [
            Move::Idle,
            Move::Idle,
            Move::Idle,
            Move::Idle,
            Move::Idle,
            Move::Idle,
            Move::Idle,
            Move::Idle,
            Move::Idle,
        ],
    };
    proof {
        assert(r@ =~= spec_key_moves(last));
    }
    r
}

/// A copy of an input history.
fn clone_moves(v: &Vec<Move>) -> (r: Vec<Move>)
    ensures
        r@ == v@,
{
    let mut r: Vec<Move> = Vec::new();
    let mut i: usize = 0;
    while i < v.len()
        invariant
            i <= v@.len(),
            r@ =~= v@.subrange(0, i as int),
        decreases v@.len() - i,
    {
        r.push(v[i]);
        proof {
            assert(r@ =~= v@.subrange(0, i as int + 1));
        }
        i = i + 1;
    }
    proof {
        assert(r@ =~= v@);
    }
    r
}

struct Node {
    x: u8,
    y: u8,
    rot: u8,
    spin: Spin,
    hist: Vec<Move>,
}

/// The abstract value of the exec node queue.
spec fn spec_nodes_view(q: Seq<Node>) -> Seq<(u8, u8, u8, Spin, Seq<Move>)> {
    Seq::new(q.len(), |k: int| (q[k].x, q[k].y, q[k].rot, q[k].spin, q[k].hist@))
}

/// Find an input sequence that, starting from the game's current piece with a
/// clean spin, ends in a hard drop placing the piece so that its four cells
/// coincide with the target's, with the target spin.  The result equals
/// [`spec_find_keys`] of the board, shape, start pose and target — `Some`
/// exactly when that search finds a path — and a returned sequence is sound
/// by construction: replaying it with the move semantics reaches the target.
/// `None` when no sequence of at most 64 inputs is found within the search
/// bound.
#[verifier::loop_isolation(false)]
#[verifier::rlimit(100)]
pub fn get_keys(state: Game, config: &GameConfig, target: (u8, u8, u8, Spin)) -> (r: Option<
    Vec<Move>,
>)
    requires
        state.wf(),
        state.cm_ok(),
        !pose_collides(
            state.board,
            state.piece.mino,
            state.piece.rot as int,
            state.piece.x as int,
            state.piece.y as int,
        ),
        target.2 < 4,
    ensures
        (r is Some) == (spec_find_keys(
            state.board,
            state.piece.mino,
            *config,
            state.piece.x,
            state.piece.y,
            state.piece.rot,
            target,
        ) is Some),
        r matches Some(keys) ==> spec_find_keys(
            state.board,
            state.piece.mino,
            *config,
            state.piece.x,
            state.piece.y,
            state.piece.rot,
            target,
        ) == Some(keys@),
        r matches Some(keys) ==> ({
            let f = spec_apply_moves(
                state.board,
                state.piece.mino,
                *config,
                state.piece.x as int,
                state.piece.y as int,
                state.piece.rot as int,
                Spin::NoSpin,
                keys@,
            );
            &&& keys@.len() >= 1
            &&& keys@[keys@.len() - 1] == Move::HardDrop
            &&& f.2 % 2 == target.2 % 2
            &&& f.3 == target.3
            &&& !pose_collides(state.board, state.piece.mino, f.2, f.0, f.1)
            &&& spec_blocks_match(
                state.piece.mino,
                f.2,
                f.0,
                f.1,
                target.2 as int,
                target.0 as int,
                target.1 as int,
            )
        }),
{
    let ghost b = state.board;
    let ghost m = state.piece.mino;
    let ghost x0 = state.piece.x as int;
    let ghost y0 = state.piece.y as int;
    let ghost rot0 = state.piece.rot as int;
    let mut game = state;
    let start_x = game.piece.x;
    let start_y = game.piece.y;
    let start_rot = game.piece.rot;
    proof {
        crate::bits::lemma_bit_or();
        crate::bits::lemma_bit_shl();
        crate::bits::lemma_bit_one();
    }
    let mut passed: Vec<u64> = Vec::new();
    let mut pi: usize = 0;
    while pi < 1024
        invariant
            pi <= 1024,
            passed@.len() == pi,
            forall|k: int| 0 <= k < pi ==> (#[trigger] passed@[k]) == 0,
        decreases 1024 - pi,
    {
        passed.push(0);
        pi = pi + 1;
    }
    let mut queue: Vec<Node> = Vec::new();
    queue.push(Node { x: start_x, y: start_y, rot: start_rot, spin: Spin::NoSpin, hist: Vec::new() });
    let ghost st0v = (
        seq![(state.piece.x, state.piece.y, state.piece.rot, Spin::NoSpin, Seq::<Move>::empty())],
        Seq::new(1024, |k: int| 0u64),
    );
    proof {
        assert(spec_nodes_view(queue@) =~= st0v.0);
        assert(passed@ =~= st0v.1);
    }
    let mut front: usize = 0;
    while front < queue.len()
        invariant
            game.board == b,
            game.piece.mino == m,
            game.collision_map == state.collision_map,
            game.piece.rot < 4,
            game.piece.x < 12,
            game.piece.y < 40,
            game.wf(),
            game.cm_ok(),
            passed@.len() == 1024,
            front <= queue@.len() <= 2048,
            forall|k: int|
                0 <= k < queue@.len() ==> ({
                    let n = #[trigger] queue@[k];
                    &&& n.rot < 4
                    &&& n.x < 12
                    &&& n.y < 40
                    &&& !pose_collides(b, m, n.rot as int, n.x as int, n.y as int)
                    &&& n.hist@.len() <= 64
                    &&& spec_apply_moves(b, m, *config, x0, y0, rot0, Spin::NoSpin, n.hist@) == (
                    n.x as int,
                    n.y as int,
                    n.rot as int,
                    n.spin,
                    )
                }),
            spec_keys_from(b, m, *config, target, st0v, 0) == spec_keys_from(
                b,
                m,
                *config,
                target,
                (spec_nodes_view(queue@), passed@),
                front as int,
            ),
        decreases 2048 - front,
    {
        let node_x = queue[front].x;
        let node_y = queue[front].y;
        let node_rot = queue[front].rot;
        let node_spin = queue[front].spin;
        let node_hist = clone_moves(&queue[front].hist);
        let ghost front0 = front as int;
        front = front + 1;
        let ghost st_enter = (spec_nodes_view(queue@), passed@);
        let ghost nodev = (node_x, node_y, node_rot, node_spin, node_hist@);
        proof {
            assert(st_enter.0[front0] == nodev);
        }
        let last_mv = if node_hist.len() == 0 {
            Move::Idle
        } else {
            node_hist[node_hist.len() - 1]
        };
        let moves = key_moves(last_mv);
        proof {
            assert(last_mv == (if nodev.4.len() == 0 {
                Move::Idle
            } else {
                nodev.4.last()
            }));
        }
        let mut mi: usize = 0;
        while mi < 9
            invariant
                mi <= 9,
                game.board == b,
                game.piece.mino == m,
                game.collision_map == state.collision_map,
                game.piece.rot < 4,
                game.piece.x < 12,
                game.piece.y < 40,
                game.wf(),
                game.cm_ok(),
                passed@.len() == 1024,
                front <= queue@.len() <= 2048,
                node_rot < 4 && node_x < 12 && node_y < 40,
                !pose_collides(b, m, node_rot as int, node_x as int, node_y as int),
                node_hist@.len() <= 64,
                spec_apply_moves(b, m, *config, x0, y0, rot0, Spin::NoSpin, node_hist@) == (
                node_x as int,
                node_y as int,
                node_rot as int,
                node_spin,
                ),
                forall|i2: int| 0 <= i2 < 9 ==> (#[trigger] moves@[i2]) != Move::Hold,
                moves@ == spec_key_moves(
                    if nodev.4.len() == 0 {
                        Move::Idle
                    } else {
                        nodev.4.last()
                    },
                ),
                spec_keys_node(b, m, *config, target, nodev, st_enter, 0) == spec_keys_node(
                    b,
                    m,
                    *config,
                    target,
                    nodev,
                    (spec_nodes_view(queue@), passed@),
                    mi as int,
                ),
                forall|k: int|
                    0 <= k < queue@.len() ==> ({
                        let n = #[trigger] queue@[k];
                        &&& n.rot < 4
                        &&& n.x < 12
                        &&& n.y < 40
                        &&& !pose_collides(b, m, n.rot as int, n.x as int, n.y as int)
                        &&& n.hist@.len() <= 64
                        &&& spec_apply_moves(b, m, *config, x0, y0, rot0, Spin::NoSpin, n.hist@)
                            == (n.x as int, n.y as int, n.rot as int, n.spin)
                    }),
            decreases 9 - mi,
        {
            let mv = moves[mi];
            if matches!(mv, Move::Idle) {
                proof {
                    let cur = (spec_nodes_view(queue@), passed@);
                    assert(spec_keys_node(b, m, *config, target, nodev, cur, mi as int) == (
                    cur,
                    None::<Seq<Move>>,
                    ));
                    assert(spec_keys_node(b, m, *config, target, nodev, cur, 9) == (
                    cur,
                    None::<Seq<Move>>,
                    ));
                }
                mi = 9;
            } else {
                let ghost st_in = (spec_nodes_view(queue@), passed@);
                game.piece.x = node_x;
                game.piece.y = node_y;
                game.piece.rot = node_rot;
                game.spin = node_spin;
                proof {
                    lemma_step_ok(
                        b,
                        m,
                        *config,
                        node_x as int,
                        node_y as int,
                        node_rot as int,
                        node_spin,
                        mv,
                    );
                }
                let ok = mv.run(&mut game, config);
                proof {
                    lemma_apply_moves_snoc(
                        b,
                        m,
                        *config,
                        x0,
                        y0,
                        rot0,
                        Spin::NoSpin,
                        node_hist@,
                        mv,
                    );
                }
                if matches!(mv, Move::HardDrop) {
                    let parity_ok = game.piece.rot % 2 == target.2 % 2;
                    let spin_ok = game.spin == target.3;
                    let fb = game.piece.blocks();
                    let tb = game.piece.mino.rot(target.2);
                    let px = game.piece.x as i32;
                    let py = game.piece.y as i32;
                    let tx = target.0 as i32;
                    let ty = target.1 as i32;
                    let t0x = tx - tb[0].0 as i32;
                    let t0y = ty - tb[0].1 as i32;
                    let t1x = tx - tb[1].0 as i32;
                    let t1y = ty - tb[1].1 as i32;
                    let t2x = tx - tb[2].0 as i32;
                    let t2y = ty - tb[2].1 as i32;
                    let t3x = tx - tb[3].0 as i32;
                    let t3y = ty - tb[3].1 as i32;
                    let c0x = px - fb[0].0 as i32;
                    let c0y = py - fb[0].1 as i32;
                    let c1x = px - fb[1].0 as i32;
                    let c1y = py - fb[1].1 as i32;
                    let c2x = px - fb[2].0 as i32;
                    let c2y = py - fb[2].1 as i32;
                    let c3x = px - fb[3].0 as i32;
                    let c3y = py - fb[3].1 as i32;
                    let in0 = (c0x == t0x && c0y == t0y) || (c0x == t1x && c0y == t1y) || (c0x
                        == t2x && c0y == t2y) || (c0x == t3x && c0y == t3y);
                    let in1 = (c1x == t0x && c1y == t0y) || (c1x == t1x && c1y == t1y) || (c1x
                        == t2x && c1y == t2y) || (c1x == t3x && c1y == t3y);
                    let in2 = (c2x == t0x && c2y == t0y) || (c2x == t1x && c2y == t1y) || (c2x
                        == t2x && c2y == t2y) || (c2x == t3x && c2y == t3y);
                    let in3 = (c3x == t0x && c3y == t0y) || (c3x == t1x && c3y == t1y) || (c3x
                        == t2x && c3y == t2y) || (c3x == t3x && c3y == t3y);
                    let all_ok = in0 && in1 && in2 && in3;
                    let ghost grot = game.piece.rot as int;
                    let ghost gx = game.piece.x as int;
                    let ghost gy = game.piece.y as int;
                    proof {
                        assert(in0 == spec_cell_in(
                            m,
                            grot,
                            gx,
                            gy,
                            0,
                            target.2 as int,
                            target.0 as int,
                            target.1 as int,
                        ));
                        assert(in1 == spec_cell_in(
                            m,
                            grot,
                            gx,
                            gy,
                            1,
                            target.2 as int,
                            target.0 as int,
                            target.1 as int,
                        ));
                        assert(in2 == spec_cell_in(
                            m,
                            grot,
                            gx,
                            gy,
                            2,
                            target.2 as int,
                            target.0 as int,
                            target.1 as int,
                        ));
                        assert(in3 == spec_cell_in(
                            m,
                            grot,
                            gx,
                            gy,
                            3,
                            target.2 as int,
                            target.0 as int,
                            target.1 as int,
                        ));
                        assert(all_ok == spec_blocks_match(
                            m,
                            grot,
                            gx,
                            gy,
                            target.2 as int,
                            target.0 as int,
                            target.1 as int,
                        ));
                    }
                    let success = parity_ok && spin_ok && all_ok;
                    proof {
                        let cur = (spec_nodes_view(queue@), passed@);
                        let smv = spec_step(
                            b,
                            m,
                            *config,
                            node_x as int,
                            node_y as int,
                            node_rot as int,
                            node_spin,
                            mv,
                        );
                        assert(smv.0 == gx && smv.1 == gy && smv.2 == grot && smv.3 == game.spin);
                        let rmv = spec_keys_move(b, m, *config, target, nodev, cur, mv);
                        if success {
                            assert(rmv == (cur, Some(nodev.4.push(Move::HardDrop))));
                        } else {
                            assert(rmv == (cur, None::<Seq<Move>>));
                            assert(spec_keys_node(b, m, *config, target, nodev, cur, mi as int)
                                == spec_keys_node(b, m, *config, target, nodev, cur, mi as int + 1));
                        }
                    }
                    if success {
                        let mut keys = node_hist;
                        keys.push(Move::HardDrop);
                        proof {
                            let f = spec_apply_moves(
                                b,
                                m,
                                *config,
                                x0,
                                y0,
                                rot0,
                                Spin::NoSpin,
                                keys@,
                            );
                            assert(f.0 == game.piece.x as int && f.1 == game.piece.y as int
                                && f.2 == game.piece.rot as int && f.3 == game.spin);
                            assert(keys@[keys@.len() - 1] == Move::HardDrop);
                            assert(f.3 == target.3);
                            assert(f.2 % 2 == target.2 % 2);
                            assert(!pose_collides(b, m, f.2, f.0, f.1));
                            assert(spec_blocks_match(
                                m,
                                f.2,
                                f.0,
                                f.1,
                                target.2 as int,
                                target.0 as int,
                                target.1 as int,
                            ));
                            let cur = (spec_nodes_view(queue@), passed@);
                            assert(spec_keys_node(b, m, *config, target, nodev, cur, mi as int)
                                == (cur, Some(keys@)));
                            assert(spec_keys_node(b, m, *config, target, nodev, st_enter, 0).1
                                == Some(keys@));
                            assert(spec_keys_from(b, m, *config, target, st_enter, front0)
                                == Some(keys@));
                            assert(spec_keys_from(b, m, *config, target, st0v, 0) == Some(keys@));
                        }
                        return Some(keys);
                    }
                } else {
                    let can_extend = ok && node_hist.len() < 64;
                    let compressed: u16 = (game.piece.x as u16 & 0xF) | ((game.piece.y as u16
                        & 0x3F) << 4u16) | (((game.piece.rot as u16) & 0x3) << 10u16) | ((
                    crate::expand::spin_code(game.spin) & 0x3) << 12u16);
                    let idx: usize = (compressed / 64) as usize;
                    let bit: u64 = 1u64 << ((compressed % 64) as u64);
                    proof {
                        assert(idx < 1024);
                    }
                    let fresh = passed[idx] & bit == 0;
                    let qroom = queue.len() < 2048;
                    if can_extend && fresh && qroom {
                        let ghost pb = passed@;
                        let ghost qb = queue@;
                        let v = passed[idx] | bit;
                        passed[idx] = v;
                        let mut nh = clone_moves(&node_hist);
                        nh.push(mv);
                        queue.push(
                            Node {
                                x: game.piece.x,
                                y: game.piece.y,
                                rot: game.piece.rot,
                                spin: game.spin,
                                hist: nh,
                            },
                        );
                        proof {
                            assert(passed@ == pb.update(idx as int, pb[idx as int] | bit));
                            assert(spec_nodes_view(queue@) =~= spec_nodes_view(qb).push(
                                (game.piece.x, game.piece.y, game.piece.rot, game.spin, node_hist@.push(mv)),
                            ));
                        }
                    }
                    proof {
                        let cur2 = (spec_nodes_view(queue@), passed@);
                        let smv = spec_step(
                            b,
                            m,
                            *config,
                            node_x as int,
                            node_y as int,
                            node_rot as int,
                            node_spin,
                            mv,
                        );
                        assert(game.piece.x == smv.0 as u8 && game.piece.y == smv.1 as u8
                            && game.piece.rot == smv.2 as u8 && game.spin == smv.3 && ok == smv.4);
                        let nx = smv.0 as u8;
                        let ny = smv.1 as u8;
                        let nrot = smv.2 as u8;
                        assert(compressed == ((nx as u16 & 0xF) | ((ny as u16 & 0x3F) << 4u16) | ((
                        (nrot as u16) & 0x3) << 10u16) | ((spec_spin_code(smv.3) & 0x3)
                            << 12u16)));
                        let rmv = spec_keys_move(b, m, *config, target, nodev, st_in, mv);
                        assert(rmv.1 is None);
                        assert(cur2.1 =~= rmv.0.1);
                        assert(cur2.0 =~= rmv.0.0);
                        assert(spec_keys_node(b, m, *config, target, nodev, st_in, mi as int)
                            == spec_keys_node(b, m, *config, target, nodev, cur2, mi as int + 1));
                    }
                }
                mi = mi + 1;
            }
        }
        proof {
            let cur = (spec_nodes_view(queue@), passed@);
            assert(spec_keys_node(b, m, *config, target, nodev, cur, 9) == (
            cur,
            None::<Seq<Move>>,
            ));
            assert(spec_keys_node(b, m, *config, target, nodev, st_enter, 0) == (
            cur,
            None::<Seq<Move>>,
            ));
            assert(spec_keys_from(b, m, *config, target, st_enter, front0) == spec_keys_from(
                b,
                m,
                *config,
                target,
                cur,
                front0 + 1,
            ));
        }
    }
    proof {
        let cur = (spec_nodes_view(queue@), passed@);
        assert(spec_keys_from(b, m, *config, target, cur, front as int) is None);
        assert(spec_keys_from(b, m, *config, target, st0v, 0) is None);
    }
    None
}

} // verus!
