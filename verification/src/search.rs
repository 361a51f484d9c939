//! The placement search: a width-bounded best-first search over piece
//! placements, scored by the board heuristic.  Each ply expands every beam
//! candidate with and without the hold piece and keeps the best scorers.
use vstd::prelude::*;

use crate::data::Mino;
use crate::data::Spin;
use crate::eval::eval;
use crate::eval::Weights;
use crate::bits::ones_below;
use crate::board::seq_full_mask;
use crate::board::Board;
use crate::collision::pose_collides;
use crate::expand::expand;
use crate::expand::spec_expand_poses;
use crate::expand::spec_landable;
use crate::game::Game;
use crate::game::GameConfig;

verus! {

/// The number of candidates kept per ply.
pub const BEAM_WIDTH: usize = 2000;

/// The shape the root's first placement acts on: the held piece when the
/// placement uses hold (pulling from the preview if the slot is empty), the
/// current piece otherwise.
pub open spec fn spec_first_mino(root: Game, used_hold: bool) -> Mino {
    if used_hold {
        match root.hold {
            Some(h) => h,
            None => root.queue@[root.queue_ptr as int],
        }
    } else {
        root.piece.mino
    }
}

/// The chosen first placement is sound for the root: its pose is landable on
/// the root board for the shape the placement acts on.
pub open spec fn spec_action_sound(root: Game, a: (u8, u8, u8, bool, Spin)) -> bool {
    &&& a.2 < 4
    &&& spec_landable(root.board, spec_first_mino(root, a.3), a.2 as int, a.0 as int, a.1 as int)
}

/// The pose the expander starts from for the root's first placement: the
/// current piece where it stands, or the held piece at its spawn (a swap
/// keeps the rotation, a first hold pulls a fresh piece).
pub open spec fn spec_root_start(root: Game, used_hold: bool) -> (u8, u8, u8) {
    if used_hold {
        match root.hold {
            Some(h) => (crate::game::spec_spawn_x(h), crate::game::spec_spawn_y(), root.piece.rot),
            None => (
                crate::game::spec_spawn_x(root.queue@[root.queue_ptr as int]),
                crate::game::spec_spawn_y(),
                0u8,
            ),
        }
    } else {
        (root.piece.x, root.piece.y, root.piece.rot)
    }
}

/// The chosen first placement was emitted by the expander run on the root
/// after the placement's hold choice.
pub open spec fn spec_action_emitted(root: Game, cfg: GameConfig, a: (u8, u8, u8, bool, Spin)) -> bool {
    let st = spec_root_start(root, a.3);
    spec_expand_poses(root.board, spec_first_mino(root, a.3), st.0, st.1, st.2, cfg).contains(
        (a.0, a.1, a.2, a.4),
    )
}

/// After placing `p` and hard-dropping, the next piece spawns freely: the
/// board that results from the lock, the clears and any landed garbage leaves
/// the next preview piece's spawn pose collision-free.
#[verifier::opaque]
pub open spec fn spec_placement_survives(
    b: Board,
    m: Mino,
    pending: Seq<crate::game::Garbage>,
    nm: Mino,
    cfg: GameConfig,
    p: (u8, u8, u8, Spin),
) -> bool {
    let rot = p.2 as int;
    let px = p.0 as int;
    let y1 = crate::game::spec_drop_y(b, m, rot, px, p.1 as nat) as int;
    let cols1 = crate::game::spec_lock_upto(b.cols@, m, rot, px, y1, 4);
    let mask = seq_full_mask(
        cols1,
        (y1 - crate::game::spec_max_dy(m, rot)) as u64,
        (y1 - crate::game::spec_min_dy(m, rot)) as u64,
    );
    let cleared = ones_below(mask, 40) as int;
    let gdrop = ones_below(mask, b.garbage as nat) as int;
    let cols2 = Seq::new(10, |x: int| Board::remove_rows(cols1[x], mask, 40));
    let ae = crate::game::spec_apply_expired(cols2, b.garbage - gdrop, pending);
    let finalcols = if cleared > 0 {
        cols2
    } else {
        ae.0
    };
    forall|bb: Board|
        bb.cols@ == finalcols ==> !#[trigger] pose_collides(
            bb,
            nm,
            0,
            crate::game::spec_spawn_x(nm) as int,
            crate::game::spec_spawn_y() as int,
        )
}

/// The preview pointer after the placement's hold choice: a first hold pulls
/// one preview piece before the placement consumes the next.
pub open spec fn spec_root_ptr(root: Game, used_hold: bool) -> int {
    if used_hold && root.hold is None {
        root.queue_ptr + 1
    } else {
        root.queue_ptr as int
    }
}

/// One branch of the root (with or without hold) can commit a placement: the
/// hold choice is possible, the piece in play is not topped out, and some
/// pose the expander emits for it survives its own hard drop.
#[verifier::opaque]
pub open spec fn spec_branch_viable(root: Game, cfg: GameConfig, used_hold: bool) -> bool {
    let m1 = spec_first_mino(root, used_hold);
    let st = spec_root_start(root, used_hold);
    let ptr1 = spec_root_ptr(root, used_hold);
    let poses = spec_expand_poses(root.board, m1, st.0, st.1, st.2, cfg);
    &&& used_hold ==> (root.hold is Some || root.queue_ptr < 32)
    &&& ptr1 < 32
    &&& !pose_collides(root.board, m1, st.2 as int, st.0 as int, st.1 as int)
    &&& exists|i: int|
        0 <= i < poses.len() && spec_placement_survives(
            root.board,
            m1,
            root.garbage@,
            root.queue@[ptr1],
            cfg,
            #[trigger] poses[i],
        )
}

/// The search is owed a result: counters in range and one of the two root
/// branches (without or with hold) able to commit a surviving placement.
pub open spec fn spec_search_root_viable(root: Game, cfg: GameConfig) -> bool {
    &&& root.b2b < 32766
    &&& root.combo < 32766
    &&& root.b2b + cfg.pc_b2b <= 32766
    &&& (spec_branch_viable(root, cfg, false) || spec_branch_viable(root, cfg, true))
}


/// A surviving placement's hard drop leaves the next spawn free: matching the
/// drop relation against [`spec_placement_survives`]'s board chain.
proof fn lemma_drop_survival(
    root: Game,
    cfg: GameConfig,
    g2pre: Game,
    g2post: Game,
    rr: (u16, Option<Spin>),
    m1: Mino,
    ptr1: int,
)
    requires
        crate::game::spec_hard_drop_rel(g2pre, g2post, rr, cfg),
        g2pre.board == root.board,
        g2pre.piece.mino == m1,
        g2pre.garbage@ == root.garbage@,
        g2pre.queue == root.queue,
        g2pre.queue_ptr as int == ptr1,
        spec_placement_survives(
            root.board,
            m1,
            root.garbage@,
            root.queue@[ptr1],
            cfg,
            (g2pre.piece.x, g2pre.piece.y, g2pre.piece.rot, g2pre.spin),
        ),
    ensures
        !pose_collides(
            g2post.board,
            g2post.piece.mino,
            g2post.piece.rot as int,
            g2post.piece.x as int,
            g2post.piece.y as int,
        ),
{
    reveal(spec_placement_survives);
    reveal(crate::game::spec_hard_drop_rel);
    assert(!pose_collides(
        g2post.board,
        root.queue@[ptr1],
        0,
        crate::game::spec_spawn_x(root.queue@[ptr1]) as int,
        crate::game::spec_spawn_y() as int,
    ));
}


/// Equal observable game state: the cached collision field aside, every
/// field agrees (the pending-garbage queue by content).
pub open spec fn spec_games_alike(ga: Game, gb: Game) -> bool {
    &&& gb.board == ga.board
    &&& gb.piece == ga.piece
    &&& gb.queue == ga.queue
    &&& gb.queue_ptr == ga.queue_ptr
    &&& gb.hold == ga.hold
    &&& gb.b2b == ga.b2b
    &&& gb.combo == ga.combo
    &&& gb.spin == ga.spin
    &&& gb.garbage@ == ga.garbage@
}

/// One hold application: the piece swaps with the slot (or stores and pulls
/// the next preview piece) and respawns.
pub open spec fn spec_hold_rel(ga: Game, gb: Game) -> bool {
    &&& gb.board == ga.board
    &&& gb.queue == ga.queue
    &&& gb.b2b == ga.b2b
    &&& gb.combo == ga.combo
    &&& gb.spin == ga.spin
    &&& gb.garbage@ == ga.garbage@
    &&& gb.hold == Some(ga.piece.mino)
    &&& gb.piece.mino == spec_first_mino(ga, true)
    &&& gb.piece.x == spec_root_start(ga, true).0
    &&& gb.piece.y == spec_root_start(ga, true).1
    &&& gb.piece.rot == spec_root_start(ga, true).2
    &&& gb.queue_ptr as int == spec_root_ptr(ga, true)
}

/// The placement's hold choice applied, or the state left as it stands.
pub open spec fn spec_hold_or_stay(ga: Game, gb: Game, used: bool) -> bool {
    if used {
        spec_hold_rel(ga, gb)
    } else {
        spec_games_alike(ga, gb)
    }
}

/// One search ply from `ga` to `gb` by placement `act`: the hold choice, a
/// pose the expander emits for the piece then in play, its hard drop, and a
/// resulting state whose spawned piece does not collide.
#[verifier::opaque]
pub open spec fn spec_ply_rel(
    cfg: GameConfig,
    ga: Game,
    act: (u8, u8, u8, bool, Spin),
    gb: Game,
) -> bool {
    exists|gh: Game, gd: Game, r2: (u16, Option<Spin>)|
        #![trigger spec_hold_or_stay(ga, gh, act.3), crate::game::spec_hard_drop_rel(gd, gb, r2, cfg)]
        {
            &&& spec_hold_or_stay(ga, gh, act.3)
            &&& spec_expand_poses(
                gh.board,
                gh.piece.mino,
                gh.piece.x,
                gh.piece.y,
                gh.piece.rot,
                cfg,
            ).contains((act.0, act.1, act.2, act.4))
            &&& gd.board == gh.board
            &&& gd.queue == gh.queue
            &&& gd.queue_ptr == gh.queue_ptr
            &&& gd.hold == gh.hold
            &&& gd.b2b == gh.b2b
            &&& gd.combo == gh.combo
            &&& gd.garbage@ == gh.garbage@
            &&& gd.piece.mino == gh.piece.mino
            &&& gd.piece.x == act.0
            &&& gd.piece.y == act.1
            &&& gd.piece.rot == act.2
            &&& gd.spin == act.4
            &&& crate::game::spec_hard_drop_rel(gd, gb, r2, cfg)
            &&& !pose_collides(
                gb.board,
                gb.piece.mino,
                gb.piece.rot as int,
                gb.piece.x as int,
                gb.piece.y as int,
            )
        }
}

/// `gb` is reached from `ga` by the given placements, one ply at a time.
#[verifier::opaque]
pub open spec fn spec_path_rel(
    cfg: GameConfig,
    ga: Game,
    steps: Seq<(u8, u8, u8, bool, Spin)>,
    gb: Game,
) -> bool
    decreases steps.len(),
{
    if steps.len() == 0 {
        spec_games_alike(ga, gb)
    } else {
        exists|gm: Game|
            #[trigger] spec_ply_rel(cfg, ga, steps[0], gm) && spec_path_rel(
                cfg,
                gm,
                steps.drop_first(),
                gb,
            )
    }
}


/// The empty path reaches any observably equal state.
proof fn lemma_path_empty(
    cfg: GameConfig,
    ga: Game,
    steps: Seq<(u8, u8, u8, bool, Spin)>,
    gb: Game,
)
    requires
        steps.len() == 0,
        spec_games_alike(ga, gb),
    ensures
        spec_path_rel(cfg, ga, steps, gb),
{
    reveal(spec_path_rel);
}

/// The drop relation only reads the observable fields of its target, so it
/// carries over a rebuilt collision field.
proof fn lemma_drop_rel_cm(ga: Game, gb1: Game, gb2: Game, rr: (u16, Option<Spin>), cfg: GameConfig)
    requires
        crate::game::spec_hard_drop_rel(ga, gb1, rr, cfg),
        gb2.board == gb1.board,
        gb2.piece == gb1.piece,
        gb2.queue == gb1.queue,
        gb2.queue_ptr == gb1.queue_ptr,
        gb2.hold == gb1.hold,
        gb2.b2b == gb1.b2b,
        gb2.combo == gb1.combo,
        gb2.spin == gb1.spin,
        gb2.garbage@ == gb1.garbage@,
    ensures
        crate::game::spec_hard_drop_rel(ga, gb2, rr, cfg),
{
    reveal(crate::game::spec_hard_drop_rel);
}

/// Introduction form of one search ply from its exec witnesses.
proof fn lemma_ply_intro(
    cfg: GameConfig,
    parent: Game,
    gh: Game,
    gd: Game,
    gb: Game,
    rr: (u16, Option<Spin>),
    act: (u8, u8, u8, bool, Spin),
)
    requires
        spec_hold_or_stay(parent, gh, act.3),
        spec_expand_poses(gh.board, gh.piece.mino, gh.piece.x, gh.piece.y, gh.piece.rot, cfg)
            .contains((act.0, act.1, act.2, act.4)),
        gd.board == gh.board,
        gd.queue == gh.queue,
        gd.queue_ptr == gh.queue_ptr,
        gd.hold == gh.hold,
        gd.b2b == gh.b2b,
        gd.combo == gh.combo,
        gd.garbage@ == gh.garbage@,
        gd.piece.mino == gh.piece.mino,
        gd.piece.x == act.0,
        gd.piece.y == act.1,
        gd.piece.rot == act.2,
        gd.spin == act.4,
        crate::game::spec_hard_drop_rel(gd, gb, rr, cfg),
        !pose_collides(
            gb.board,
            gb.piece.mino,
            gb.piece.rot as int,
            gb.piece.x as int,
            gb.piece.y as int,
        ),
    ensures
        spec_ply_rel(cfg, parent, act, gb),
{
    reveal(spec_ply_rel);
    assert(spec_hold_or_stay(parent, gh, act.3) && crate::game::spec_hard_drop_rel(
        gd,
        gb,
        rr,
        cfg,
    ));
}

/// A ply relates equally from observably equal states.
proof fn lemma_ply_alike(cfg: GameConfig, ga: Game, ga2: Game, act: (u8, u8, u8, bool, Spin), gb: Game)
    requires
        spec_games_alike(ga, ga2),
        spec_ply_rel(cfg, ga2, act, gb),
    ensures
        spec_ply_rel(cfg, ga, act, gb),
{
    reveal(spec_ply_rel);
    let (gh, gd, r2) = choose|gh: Game, gd: Game, r2: (u16, Option<Spin>)|
        #![trigger spec_hold_or_stay(ga2, gh, act.3), crate::game::spec_hard_drop_rel(gd, gb, r2, cfg)]
        {
            &&& spec_hold_or_stay(ga2, gh, act.3)
            &&& spec_expand_poses(
                gh.board,
                gh.piece.mino,
                gh.piece.x,
                gh.piece.y,
                gh.piece.rot,
                cfg,
            ).contains((act.0, act.1, act.2, act.4))
            &&& gd.board == gh.board
            &&& gd.queue == gh.queue
            &&& gd.queue_ptr == gh.queue_ptr
            &&& gd.hold == gh.hold
            &&& gd.b2b == gh.b2b
            &&& gd.combo == gh.combo
            &&& gd.garbage@ == gh.garbage@
            &&& gd.piece.mino == gh.piece.mino
            &&& gd.piece.x == act.0
            &&& gd.piece.y == act.1
            &&& gd.piece.rot == act.2
            &&& gd.spin == act.4
            &&& crate::game::spec_hard_drop_rel(gd, gb, r2, cfg)
            &&& !pose_collides(
                gb.board,
                gb.piece.mino,
                gb.piece.rot as int,
                gb.piece.x as int,
                gb.piece.y as int,
            )
        };
    assert(spec_hold_or_stay(ga, gh, act.3));
    assert(crate::game::spec_hard_drop_rel(gd, gb, r2, cfg));
}

/// Extending a reached state by one more ply extends the path.
proof fn lemma_path_snoc(
    cfg: GameConfig,
    ga: Game,
    steps: Seq<(u8, u8, u8, bool, Spin)>,
    gm2: Game,
    act: (u8, u8, u8, bool, Spin),
    gb: Game,
)
    requires
        spec_path_rel(cfg, ga, steps, gm2),
        spec_ply_rel(cfg, gm2, act, gb),
    ensures
        spec_path_rel(cfg, ga, steps.push(act), gb),
    decreases steps.len(),
{
    reveal(spec_path_rel);
    if steps.len() == 0 {
        lemma_ply_alike(cfg, ga, gm2, act, gb);
        assert(steps.push(act)[0] == act);
        assert(steps.push(act).drop_first() =~= steps);
        assert(spec_games_alike(gb, gb));
        assert(spec_path_rel(cfg, gb, steps.push(act).drop_first(), gb));
        assert(spec_ply_rel(cfg, ga, steps.push(act)[0], gb) && spec_path_rel(
            cfg,
            gb,
            steps.push(act).drop_first(),
            gb,
        ));
    } else {
        let gm = choose|gm: Game|
            #[trigger] spec_ply_rel(cfg, ga, steps[0], gm) && spec_path_rel(
                cfg,
                gm,
                steps.drop_first(),
                gm2,
            );
        lemma_path_snoc(cfg, gm, steps.drop_first(), gm2, act, gb);
        assert(steps.push(act)[0] == steps[0]);
        assert(steps.push(act).drop_first() =~= steps.drop_first().push(act));
        assert(spec_ply_rel(cfg, ga, steps.push(act)[0], gm) && spec_path_rel(
            cfg,
            gm,
            steps.push(act).drop_first(),
            gb,
        ));
    }
}

/// The returned action and projected game are connected to the root: some
/// placement path of one to `max_depth` plies, starting with the action,
/// reaches the game.
pub open spec fn spec_result_reached(
    cfg: GameConfig,
    root: Game,
    max_depth: u8,
    a: ((u8, u8, u8, bool, Spin), Game),
) -> bool {
    exists|steps: Seq<(u8, u8, u8, bool, Spin)>|
        1 <= steps.len() <= max_depth && steps[0] == a.0 && #[trigger] spec_path_rel(
            cfg,
            root,
            steps,
            a.1,
        )
}

/// A path also reaches any observably equal copy of its end state.
proof fn lemma_path_alike_right(
    cfg: GameConfig,
    ga: Game,
    steps: Seq<(u8, u8, u8, bool, Spin)>,
    gb1: Game,
    gb2: Game,
)
    requires
        spec_path_rel(cfg, ga, steps, gb1),
        spec_games_alike(gb1, gb2),
    ensures
        spec_path_rel(cfg, ga, steps, gb2),
    decreases steps.len(),
{
    reveal(spec_path_rel);
    if steps.len() == 0 {
    } else {
        let gm = choose|gm: Game|
            #[trigger] spec_ply_rel(cfg, ga, steps[0], gm) && spec_path_rel(
                cfg,
                gm,
                steps.drop_first(),
                gb1,
            );
        lemma_path_alike_right(cfg, gm, steps.drop_first(), gb1, gb2);
    }
}

struct SearchState {
    game: Game,
    depth: u8,
    lines_sent: u16,
    clears: Vec<Spin>,
    first_move: Option<(u8, u8, u8, bool, Spin)>,
    trace: Ghost<Seq<(u8, u8, u8, bool, Spin)>>,
}

struct Candidate {
    state: SearchState,
    score: i64,
}

/// A copy of a clear history.
fn clone_spins(v: &Vec<Spin>) -> (r: Vec<Spin>)
    ensures
        r@ == v@,
{
    let mut r: Vec<Spin> = Vec::new();
    let mut i: usize = 0;
    while i < v.len()
        invariant
            i <= v@.len(),
            r@ =~= v@.subrange(0, i as int),
        decreases v@.len() - i,
    {
        r.push(v[i]);
        proof {
            assert(r@ =~= v@.subrange(0, i as int + 1));
        }
        i = i + 1;
    }
    proof {
        assert(r@ =~= v@);
    }
    r
}

/// A candidate the beam may hold: a sound game state whose first move, when
/// already chosen, is a sound placement the expander emitted for the root;
/// the one first-move-less candidate is the root itself.
spec fn candidate_ok(root: Game, cfg: GameConfig, c: Candidate) -> bool {
    &&& c.state.game.wf()
    &&& c.state.game.cm_ok()
    &&& c.state.game.b2b >= -1
    &&& c.state.clears@.len() <= 4000
    &&& match c.state.first_move {
        Some(a) => {
            &&& spec_action_sound(root, a)
            &&& spec_action_emitted(root, cfg, a)
            &&& c.state.trace@.len() >= 1
            &&& c.state.trace@[0] == a
            &&& c.state.trace@.len() == c.state.depth as int
            &&& spec_path_rel(cfg, root, c.state.trace@, c.state.game)
        },
        None => {
            &&& c.state.game.board == root.board
            &&& c.state.game.piece == root.piece
            &&& c.state.game.hold == root.hold
            &&& c.state.game.queue == root.queue
            &&& c.state.game.queue_ptr == root.queue_ptr
            &&& c.state.game.b2b == root.b2b
            &&& c.state.game.combo == root.combo
            &&& c.state.game.spin == root.spin
            &&& c.state.game.garbage@ == root.garbage@
            &&& c.state.clears@.len() == 0
            &&& c.state.trace@.len() == 0
            &&& c.state.depth == 0
        },
    }
}

/// Process one expansion's poses for one parent candidate: drop each pose,
/// score the survivor, and insert it into the next beam (evicting the worst
/// scorer when full).  A first-move-less parent with a surviving emitted pose
/// guarantees the next beam is left non-empty.
#[verifier::loop_isolation(false)]
#[verifier::rlimit(100)]
#[verifier::spinoff_prover]
fn process_expansion(
    root: Ghost<Game>,
    config: &GameConfig,
    weights: &Weights,
    parent: &Candidate,
    game_copy: &Game,
    use_hold: bool,
    num: usize,
    res_buf: &[(u8, u8, u8, Spin); 512],
    next_beam: &mut Vec<Candidate>,
    depth: u8,
    max_depth: u8,
)
    requires
        candidate_ok(root@, *config, *parent),
        weights.wf(),
        config.pc_b2b <= 32767,
        game_copy.wf(),
        game_copy.cm_ok(),
        game_copy.b2b >= -1,
        spec_hold_or_stay(parent.state.game, *game_copy, use_hold),
        game_copy.board == parent.state.game.board,
        use_hold ==> game_copy.piece.mino == spec_first_mino(parent.state.game, true),
        !use_hold ==> game_copy.piece.mino == spec_first_mino(parent.state.game, false),
        num <= 512,
        res_buf@.subrange(0, num as int) == spec_expand_poses(
            game_copy.board,
            game_copy.piece.mino,
            game_copy.piece.x,
            game_copy.piece.y,
            game_copy.piece.rot,
            *config,
        ),
        forall|k: int|
            0 <= k < num ==> ({
                let p = #[trigger] res_buf@[k];
                &&& p.2 < 4
                &&& spec_landable(
                    game_copy.board,
                    game_copy.piece.mino,
                    p.2 as int,
                    p.0 as int,
                    p.1 as int,
                )
            }),
        parent.state.depth as int <= depth as int,
        depth < max_depth,
        old(next_beam)@.len() <= BEAM_WIDTH,
        parent.state.first_move is None ==> old(next_beam)@.len() + num <= BEAM_WIDTH,
        forall|k: int|
            0 <= k < old(next_beam)@.len() ==> candidate_ok(
                root@,
                *config,
                #[trigger] old(next_beam)@[k],
            ) && (#[trigger] old(next_beam)@[k]).state.first_move is Some,
        forall|k: int|
            0 <= k < old(next_beam)@.len() ==> (#[trigger] old(next_beam)@[k]).state.depth as int
                <= depth as int + 1,
    ensures
        final(next_beam)@.len() <= BEAM_WIDTH,
        final(next_beam)@.len() >= old(next_beam)@.len(),
        final(next_beam)@.len() <= old(next_beam)@.len() + num,
        forall|k: int|
            0 <= k < final(next_beam)@.len() ==> candidate_ok(
                root@,
                *config,
                #[trigger] final(next_beam)@[k],
            ) && (#[trigger] final(next_beam)@[k]).state.first_move is Some,
        forall|k: int|
            0 <= k < final(next_beam)@.len() ==> (#[trigger] final(next_beam)@[k]).state.depth
                as int <= depth as int + 1,
        (parent.state.first_move is None && spec_search_root_viable(root@, *config)
            && spec_branch_viable(root@, *config, use_hold) && (exists|j: int|
            0 <= j < num && spec_placement_survives(
                root@.board,
                spec_first_mino(root@, use_hold),
                root@.garbage@,
                root@.queue@[spec_root_ptr(root@, use_hold)],
                *config,
                #[trigger] res_buf@.subrange(0, num as int)[j],
            ))) ==> final(next_beam)@.len() > 0,
{
    let ghost nb0 = next_beam@.len() as int;
    let mut i: usize = 0;
                    while i < num
                        invariant
                            num <= 512,
                            i <= num,
                            next_beam@.len() <= BEAM_WIDTH,
                            next_beam@.len() <= nb0 + i,
                            next_beam@.len() >= nb0,
                            parent.state.first_move is None ==> nb0 + num <= BEAM_WIDTH,
                            depth < max_depth,
                            parent.state.depth as int <= depth as int,
                            forall|k: int|
                                0 <= k < next_beam@.len() ==> (#[trigger] next_beam@[k]).state.depth
                                    as int <= depth as int + 1,
                            spec_hold_or_stay(parent.state.game, *game_copy, use_hold),
                            parent.state.first_move is None ==> ({
                                &&& game_copy.queue == root@.queue
                                &&& game_copy.queue_ptr as int == spec_root_ptr(root@, use_hold)
                                &&& game_copy.b2b == root@.b2b
                                &&& game_copy.combo == root@.combo
                                &&& game_copy.garbage@ == root@.garbage@
                            }),
                            parent.state.first_move is None && spec_search_root_viable(
                                root@,
                                *config,
                            ) && spec_branch_viable(root@, *config, use_hold) && (exists|j: int|
                                0 <= j < i && spec_placement_survives(
                                    root@.board,
                                    spec_first_mino(root@, use_hold),
                                    root@.garbage@,
                                    root@.queue@[spec_root_ptr(root@, use_hold)],
                                    *config,
                                    #[trigger] res_buf@.subrange(0, num as int)[j],
                                )) ==> next_beam@.len() > 0,
                            game_copy.wf(),
                            game_copy.cm_ok(),
                            game_copy.b2b >= -1,
                            parent.state.clears@.len() <= 4000,
                            use_hold ==> game_copy.piece.mino == spec_first_mino(
                                parent.state.game,
                                true,
                            ),
                            !use_hold ==> game_copy.piece.mino == spec_first_mino(
                                parent.state.game,
                                false,
                            ),
                            game_copy.board == parent.state.game.board,
                            res_buf@.subrange(0, num as int) == spec_expand_poses(
                                game_copy.board,
                                game_copy.piece.mino,
                                game_copy.piece.x,
                                game_copy.piece.y,
                                game_copy.piece.rot,
                                *config,
                            ),
                            parent.state.first_move is None ==> ({
                                let st = spec_root_start(root@, use_hold);
                                &&& game_copy.board == root@.board
                                &&& game_copy.piece.mino == spec_first_mino(root@, use_hold)
                                &&& game_copy.piece.x == st.0
                                &&& game_copy.piece.y == st.1
                                &&& game_copy.piece.rot == st.2
                            }),
                            forall|k: int|
                                0 <= k < num ==> ({
                                    let p = #[trigger] res_buf@[k];
                                    &&& p.2 < 4
                                    &&& spec_landable(
                                        game_copy.board,
                                        game_copy.piece.mino,
                                        p.2 as int,
                                        p.0 as int,
                                        p.1 as int,
                                    )
                                }),
                            candidate_ok(root@, *config, *parent),
                            forall|k: int|
                                0 <= k < next_beam@.len() ==> candidate_ok(
                                    root@,
                                    *config,
                                    #[trigger] next_beam@[k],
                                ) && (#[trigger] next_beam@[k]).state.first_move is Some,
                            weights.wf(),
                            config.pc_b2b <= 32767,
                        decreases num - i,
                    {
                        let pose = res_buf[i];
                        let ghost via_hit = parent.state.first_move is None
                            && spec_search_root_viable(root@, *config)
                            && spec_branch_viable(root@, *config, use_hold)
                            && spec_placement_survives(
                            root@.board,
                            spec_first_mino(root@, use_hold),
                            root@.garbage@,
                            root@.queue@[spec_root_ptr(root@, use_hold)],
                            *config,
                            res_buf@.subrange(0, num as int)[i as int],
                        );
                        let guard_ok = game_copy.queue_ptr < 32 && game_copy.b2b < 32767 - (
                        config.pc_b2b as i16) && game_copy.b2b < 32766 && game_copy.combo < 32766;
                        proof {
                            if via_hit {
                                reveal(spec_branch_viable);
                                assert(parent.state.first_move is None);
                                assert(guard_ok);
                            }
                        }
                        if guard_ok {
                            let mut g2 = Game {
                                board: game_copy.board,
                                queue: game_copy.queue,
                                queue_ptr: game_copy.queue_ptr,
                                b2b: game_copy.b2b,
                                combo: game_copy.combo,
                                hold: game_copy.hold,
                                piece: game_copy.piece,
                                garbage: clone_garbage(&game_copy.garbage),
                                collision_map: game_copy.collision_map,
                                spin: game_copy.spin,
                            };
                            g2.piece.x = pose.0;
                            g2.piece.y = pose.1;
                            g2.piece.rot = pose.2;
                            g2.spin = pose.3;
                            let ghost g2b = g2;
                            let dropped = g2.hard_drop(config);
                            let ghost g2mid = g2;
                            let lines = dropped.0;
                            let clear = dropped.1;
                            g2.regen_collision_map();
                            let dead = g2.topped_out();
                            proof {
                                if via_hit {
                                    assert(res_buf@.subrange(0, num as int)[i as int] == (
                                    pose.0,
                                    pose.1,
                                    pose.2,
                                    pose.3,
                                    ));
                                    lemma_drop_rel_cm(g2b, g2mid, *&g2, dropped, *config);
                                    lemma_drop_survival(
                                        root@,
                                        *config,
                                        g2b,
                                        *&g2,
                                        dropped,
                                        spec_first_mino(root@, use_hold),
                                        spec_root_ptr(root@, use_hold),
                                    );
                                    assert(!dead);
                                }
                            }
                            if !dead {
                                let mut next_clears = clone_spins(&parent.state.clears);
                                if let Some(c) = clear {
                                    next_clears.push(c);
                                }
                                let parent_sent = parent.state.lines_sent;
                                let next_sent: u16 = if parent_sent as u32 + lines as u32 > 65535 {
                                    65535
                                } else {
                                    parent_sent + lines
                                };
                                let parent_depth = parent.state.depth;
                                let next_depth: u8 = if parent_depth < 255 {
                                    parent_depth + 1
                                } else {
                                    255
                                };
                                let next_first = match parent.state.first_move {
                                    Some(fm) => Some(fm),
                                    None => Some((pose.0, pose.1, pose.2, use_hold, pose.3)),
                                };
                                proof {
                                    reveal(crate::game::spec_hard_drop_rel);
                                    assert(g2.b2b >= -1);
                                    if parent.state.first_move is None {
                                        let a = (pose.0, pose.1, pose.2, use_hold, pose.3);
                                        let st = spec_root_start(root@, use_hold);
                                        let poses = spec_expand_poses(
                                            root@.board,
                                            spec_first_mino(root@, use_hold),
                                            st.0,
                                            st.1,
                                            st.2,
                                            *config,
                                        );
                                        assert(res_buf@.subrange(0, num as int) == poses);
                                        assert(poses[i as int] == (pose.0, pose.1, pose.2, pose.3));
                                        assert(poses.contains((pose.0, pose.1, pose.2, pose.3)));
                                        assert(spec_action_emitted(root@, *config, a));
                                    }
                                }
                                let score = eval(weights, &g2, next_sent, clone_spins(&next_clears));
                                let ghost act = (pose.0, pose.1, pose.2, use_hold, pose.3);
                                let ghost next_trace = parent.state.trace@.push(act);
                                proof {
                                    let cfgv = *config;
                                    let parent_g = parent.state.game;
                                    lemma_drop_rel_cm(g2b, g2mid, *&g2, dropped, cfgv);
                                    assert(spec_expand_poses(
                                        game_copy.board,
                                        game_copy.piece.mino,
                                        game_copy.piece.x,
                                        game_copy.piece.y,
                                        game_copy.piece.rot,
                                        cfgv,
                                    )[i as int] == (pose.0, pose.1, pose.2, pose.3));
                                    assert(spec_expand_poses(
                                        game_copy.board,
                                        game_copy.piece.mino,
                                        game_copy.piece.x,
                                        game_copy.piece.y,
                                        game_copy.piece.rot,
                                        cfgv,
                                    ).contains((pose.0, pose.1, pose.2, pose.3)));
                                    lemma_ply_intro(
                                        cfgv,
                                        parent_g,
                                        *game_copy,
                                        g2b,
                                        *&g2,
                                        dropped,
                                        act,
                                    );
                                    if parent.state.first_move is None {
                                        assert(spec_games_alike(root@, parent_g));
                                        lemma_path_empty(
                                            cfgv,
                                            root@,
                                            parent.state.trace@,
                                            parent_g,
                                        );
                                    }
                                    lemma_path_snoc(
                                        cfgv,
                                        root@,
                                        parent.state.trace@,
                                        parent_g,
                                        act,
                                        g2,
                                    );
                                }
                                let cand = Candidate {
                                    state: SearchState {
                                        game: g2,
                                        depth: next_depth,
                                        lines_sent: next_sent,
                                        clears: next_clears,
                                        first_move: next_first,
                                        trace: Ghost(next_trace),
                                    },
                                    score,
                                };
                                proof {
                                    if via_hit {
                                        assert(cand.state.clears@.len() <= 1);
                                        assert(next_beam@.len() < BEAM_WIDTH);
                                    }
                                }
                                if cand.state.clears.len() > 4000 {
                                    proof {
                                        assert(!via_hit);
                                    }
                                } else if next_beam.len() < BEAM_WIDTH {
                                    next_beam.push(cand);
                                } else {
                                    let mut worst: usize = 0;
                                    let mut wi: usize = 1;
                                    while wi < next_beam.len()
                                        invariant
                                            next_beam@.len() == BEAM_WIDTH,
                                            worst < next_beam@.len(),
                                            wi <= next_beam@.len(),
                                        decreases next_beam@.len() - wi,
                                    {
                                        if next_beam[wi].score < next_beam[worst].score {
                                            worst = wi;
                                        }
                                        wi = wi + 1;
                                    }
                                    if score > next_beam[worst].score {
                                        next_beam[worst] = cand;
                                    }
                                }
                            }
                        }
                        i = i + 1;
                    }
}

/// Width-bounded best-first search over placements: expand every candidate
/// with and without hold, drop each reachable pose, score the result, and
/// keep the best `BEAM_WIDTH` per ply.  Returns the first placement of the
/// best surviving line and its projected game.  The placement is landable on
/// the root board for the shape it acts on and was emitted by the expander
/// run on the root after the placement's hold choice; the projected game is
/// reached from the root by one to `max_depth` such plies whose first
/// placement is exactly the returned action, with no state along the way
/// topped out; and whenever either root branch — with or without hold — can
/// commit a placement whose hard drop survives, a placement is returned.
#[verifier::loop_isolation(false)]
#[verifier::rlimit(100)]
#[verifier::spinoff_prover]
pub fn beam_search(
    root_game: Game,
    config: &GameConfig,
    max_depth: u8,
    weights: &Weights,
) -> (r: Option<((u8, u8, u8, bool, Spin), Game)>)
    requires
        root_game.wf(),
        root_game.cm_ok(),
        root_game.b2b >= -1,
        weights.wf(),
        config.pc_b2b <= 32767,
    ensures
        r matches Some(a) ==> spec_action_sound(root_game, a.0),
        r matches Some(a) ==> spec_action_emitted(root_game, *config, a.0),
        r matches Some(a) ==> spec_result_reached(*config, root_game, max_depth, a),
        max_depth >= 1 && spec_search_root_viable(root_game, *config) ==> r is Some,
{
    let ghost root = root_game;
    let init_clears: Vec<Spin> = Vec::new();
    let init_score = eval(weights, &root_game, 0, clone_spins(&init_clears));
    let mut beam: Vec<Candidate> = Vec::new();
    beam.push(
        Candidate {
            state: SearchState {
                game: root_game,
                depth: 0,
                lines_sent: 0,
                clears: init_clears,
                first_move: None,
                trace: Ghost(Seq::empty()),
            },
            score: init_score,
        },
    );
    let mut passed: [u64; 2048] = [0u64; 2048];
    let mut res_buf: [(u8, u8, u8, Spin); 512] = [(0u8, 0u8, 0u8, Spin::NoSpin); 512];
    let mut depth: u8 = 0;
    while depth < max_depth
        invariant
            beam@.len() <= BEAM_WIDTH,
            forall|k: int| 0 <= k < beam@.len() ==> candidate_ok(root, *config, #[trigger] beam@[k]),
            weights.wf(),
            config.pc_b2b <= 32767,
            depth == 0 ==> beam@.len() == 1 && beam@[0].state.first_move is None,
            depth >= 1 && depth < max_depth ==> (forall|k: int|
                0 <= k < beam@.len() ==> (#[trigger] beam@[k]).state.first_move is Some),
            depth <= max_depth,
            forall|k: int|
                0 <= k < beam@.len() ==> (#[trigger] beam@[k]).state.depth as int <= depth as int,
            spec_search_root_viable(root, *config) && depth >= 1 ==> beam@.len() > 0 && (forall|
                k: int,
            |
                0 <= k < beam@.len() ==> (#[trigger] beam@[k]).state.first_move is Some),
        decreases max_depth - depth,
    {
        let mut next_beam: Vec<Candidate> = Vec::new();
        let mut ci: usize = 0;
        while ci < beam.len()
            invariant
                ci <= beam@.len() <= BEAM_WIDTH,
                next_beam@.len() <= BEAM_WIDTH,
                depth == 0 ==> beam@.len() == 1 && beam@[0].state.first_move is None,
                depth == 0 ==> next_beam@.len() <= ci * 1024,
                depth < max_depth,
                forall|k: int|
                    0 <= k < beam@.len() ==> (#[trigger] beam@[k]).state.depth as int
                        <= depth as int,
                forall|k: int|
                    0 <= k < next_beam@.len() ==> (#[trigger] next_beam@[k]).state.depth as int
                        <= depth as int + 1,
                spec_search_root_viable(root, *config) && depth == 0 && ci >= 1
                    ==> next_beam@.len() > 0,
                forall|k: int| 0 <= k < beam@.len() ==> candidate_ok(root, *config, #[trigger] beam@[k]),
                forall|k: int|
                    0 <= k < next_beam@.len() ==> candidate_ok(root, *config, #[trigger] next_beam@[k])
                        && (#[trigger] next_beam@[k]).state.first_move is Some,
                weights.wf(),
                config.pc_b2b <= 32767,
            decreases beam@.len() - ci,
        {
            let mut n: usize = 0;
            while n <= 1
                invariant
                    n <= 2,
                    ci < beam@.len() <= BEAM_WIDTH,
                    next_beam@.len() <= BEAM_WIDTH,
                    depth == 0 ==> beam@.len() == 1 && beam@[0].state.first_move is None,
                    depth == 0 ==> next_beam@.len() <= ci * 1024 + n * 512,
                    depth < max_depth,
                    forall|k: int|
                        0 <= k < beam@.len() ==> (#[trigger] beam@[k]).state.depth as int
                            <= depth as int,
                    forall|k: int|
                        0 <= k < next_beam@.len() ==> (#[trigger] next_beam@[k]).state.depth as int
                            <= depth as int + 1,
                    spec_search_root_viable(root, *config) && depth == 0 && n >= 1
                        && spec_branch_viable(root, *config, false) ==> next_beam@.len() > 0,
                    spec_search_root_viable(root, *config) && depth == 0 && n >= 2
                        ==> next_beam@.len() > 0,
                    forall|k: int| 0 <= k < beam@.len() ==> candidate_ok(root, *config, #[trigger] beam@[k]),
                    forall|k: int|
                        0 <= k < next_beam@.len() ==> candidate_ok(root, *config, #[trigger] next_beam@[k])
                            && (#[trigger] next_beam@[k]).state.first_move is Some,
                    weights.wf(),
                    config.pc_b2b <= 32767,
                decreases 2 - n,
            {
                let use_hold = n == 1;
                let cand_game = &beam[ci].state.game;
                let mut game_copy = Game {
                    board: cand_game.board,
                    queue: cand_game.queue,
                    queue_ptr: cand_game.queue_ptr,
                    b2b: cand_game.b2b,
                    combo: cand_game.combo,
                    hold: cand_game.hold,
                    piece: cand_game.piece,
                    garbage: clone_garbage(&cand_game.garbage),
                    collision_map: cand_game.collision_map,
                    spin: cand_game.spin,
                };
                let mut hold_ok = true;
                if use_hold {
                    if game_copy.hold.is_some() || game_copy.queue_ptr < 32 {
                        game_copy.hold();
                        game_copy.regen_collision_map();
                    } else {
                        hold_ok = false;
                    }
                }
                let alive = hold_ok && !game_copy.topped_out();
                proof {
                    if spec_search_root_viable(root, *config) && depth == 0 && spec_branch_viable(
                        root,
                        *config,
                        use_hold,
                    ) {
                        reveal(spec_branch_viable);
                        assert(beam@[ci as int].state.first_move is None);
                        assert(alive);
                    }
                }
                if alive {
                    let moves = expand(&mut game_copy, config, &mut passed, &mut res_buf);
                    proof {
                        assert(spec_hold_or_stay(
                            beam@[ci as int].state.game,
                            game_copy,
                            use_hold,
                        ));
                    }
                    let num = moves.0;
                    process_expansion(
                        Ghost(root),
                        config,
                        weights,
                        &beam[ci],
                        &game_copy,
                        use_hold,
                        num,
                        &res_buf,
                        &mut next_beam,
                        depth,
                        max_depth,
                    );
                    proof {
                        if spec_search_root_viable(root, *config) && depth == 0
                            && spec_branch_viable(root, *config, use_hold) {
                            reveal(spec_branch_viable);
                            let m1 = spec_first_mino(root, use_hold);
                            let st = spec_root_start(root, use_hold);
                            let poses = spec_expand_poses(
                                root.board,
                                m1,
                                st.0,
                                st.1,
                                st.2,
                                *config,
                            );
                            assert(res_buf@.subrange(0, num as int) == poses);
                            let j = choose|j: int|
                                0 <= j < poses.len() && spec_placement_survives(
                                    root.board,
                                    m1,
                                    root.garbage@,
                                    root.queue@[spec_root_ptr(root, use_hold)],
                                    *config,
                                    #[trigger] poses[j],
                                );
                            assert(spec_placement_survives(
                                root.board,
                                m1,
                                root.garbage@,
                                root.queue@[spec_root_ptr(root, use_hold)],
                                *config,
                                res_buf@.subrange(0, num as int)[j],
                            ));
                            assert(next_beam@.len() > 0);
                        }
                    }
                }
                proof {
                    if spec_search_root_viable(root, *config) && depth == 0 {
                        if n == 0 && spec_branch_viable(root, *config, false) {
                            assert(next_beam@.len() > 0);
                        }
                        if n == 1 {
                            assert(next_beam@.len() > 0);
                        }
                    }
                }
                n = n + 1;
            }
            ci = ci + 1;
        }
        if next_beam.len() == 0 {
            proof {
                assert(!(spec_search_root_viable(root, *config) && depth == 0));
            }
            depth = max_depth;
        } else {
            beam = next_beam;
            depth = depth + 1;
        }
    }
    let mut best: Option<usize> = None;
    let mut bi: usize = 0;
    while bi < beam.len()
        invariant
            bi <= beam@.len(),
            forall|k: int| 0 <= k < beam@.len() ==> candidate_ok(root, *config, #[trigger] beam@[k]),
            best matches Some(b) ==> b < beam@.len(),
            bi >= 1 ==> best is Some,
        decreases beam@.len() - bi,
    {
        let better = match best {
            Some(b) => beam[bi].score >= beam[b].score,
            None => true,
        };
        if better {
            best = Some(bi);
        }
        bi = bi + 1;
    }
    match best {
        Some(b) => {
            match beam[b].state.first_move {
                Some(fm) => {
                    let g = Game {
                        board: beam[b].state.game.board,
                        queue: beam[b].state.game.queue,
                        queue_ptr: beam[b].state.game.queue_ptr,
                        b2b: beam[b].state.game.b2b,
                        combo: beam[b].state.game.combo,
                        hold: beam[b].state.game.hold,
                        piece: beam[b].state.game.piece,
                        garbage: clone_garbage(&beam[b].state.game.garbage),
                        collision_map: beam[b].state.game.collision_map,
                        spin: beam[b].state.game.spin,
                    };
                    proof {
                        let c = beam@[b as int];
                        assert(candidate_ok(root, *config, c));
                        assert(spec_path_rel(*config, root, c.state.trace@, c.state.game));
                        assert(spec_games_alike(c.state.game, g));
                        lemma_path_alike_right(*config, root, c.state.trace@, c.state.game, g);
                        assert(c.state.trace@[0] == fm);
                        assert(c.state.depth as int <= max_depth as int);
                        assert(1 <= c.state.trace@.len() <= max_depth);
                        assert(spec_path_rel(*config, root_game, c.state.trace@, g));
                        let ghost aa = (fm, g);
                        assert(aa.0 == fm && aa.1 == g);
                        assert(spec_path_rel(*config, root_game, c.state.trace@, aa.1));
                        assert(1 <= c.state.trace@.len() <= max_depth && c.state.trace@[0] == aa.0);
                        assert(spec_result_reached(*config, root_game, max_depth, aa));
                    }
                    Some((fm, g))
                },
                None => {
                    proof {
                        assert(!(max_depth >= 1 && spec_search_root_viable(root, *config)));
                    }
                    None
                },
            }
        },
        None => {
            proof {
                assert(!(max_depth >= 1 && spec_search_root_viable(root, *config)));
            }
            None
        },
    }
}

/// A copy of a pending-garbage queue.
fn clone_garbage(v: &Vec<crate::game::Garbage>) -> (r: Vec<crate::game::Garbage>)
    ensures
        r@ == v@,
{
    let mut r: Vec<crate::game::Garbage> = Vec::new();
    let mut i: usize = 0;
    while i < v.len()
        invariant
            i <= v@.len(),
            r@ =~= v@.subrange(0, i as int),
        decreases v@.len() - i,
    {
        r.push(v[i]);
        proof {
            assert(r@ =~= v@.subrange(0, i as int + 1));
        }
        i = i + 1;
    }
    proof {
        assert(r@ =~= v@);
    }
    r
}

} // verus!
