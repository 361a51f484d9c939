use minobot::data::ComboTable;
use minobot::data::KickTable;
use minobot::data::Mino;
use minobot::data::Spin;
use minobot::data::Spins;
use minobot::eval::eval;
use minobot::eval::weights_handtuned;
use minobot::expand::expand;
use minobot::game::Game;
use minobot::game::GameConfig;
use minobot::keyfinder::get_keys;
use minobot::search::beam_search;

fn cfg() -> GameConfig {
    GameConfig {
        kicks: KickTable::SRSPlus,
        spins: Spins::MiniPlus,
        b2b_charging: true,
        b2b_charge_at: 0,
        b2b_charge_base: 0,
        b2b_chaining: false,
        combo_table: ComboTable::Multiplier,
        garbage_multiplier_milli: 1000,
        pc_b2b: 1,
        pc_send: 5,
        garbage_special_bonus: true,
    }
}

fn cells_of(m: Mino, rot: u8, x: i32, y: i32) -> Vec<(i32, i32)> {
    let mut cells: Vec<(i32, i32)> = m
        .rot(rot)
        .iter()
        .map(|&(dx, dy)| (x - dx as i32, y - dy as i32))
        .collect();
    cells.sort();
    cells
}

fn run_expander(g: &mut Game, config: &GameConfig) -> Vec<(u8, u8, u8, Spin)> {
    let mut passed = Box::new([0u64; 2048]);
    let mut res = Box::new([(0u8, 0u8, 0u8, Spin::NoSpin); 512]);
    let (n, _) = expand(g, config, &mut passed, &mut res);
    res[..n].to_vec()
}

#[test]
fn expander_emits_seventeen_distinct_placements_for_i() {
    let config = cfg();
    let mut g = Game::new(Mino::I, [Mino::T; 32]);
    let poses = run_expander(&mut g, &config);
    let mut cell_sets: Vec<Vec<(i32, i32)>> = Vec::new();
    for &(x, y, rot, _) in &poses {
        let cells = cells_of(Mino::I, rot, x as i32, y as i32);
        if !cell_sets.contains(&cells) {
            cell_sets.push(cells);
        }
    }
    assert_eq!(cell_sets.len(), 17);
}

#[test]
fn expander_poses_are_landable() {
    let config = cfg();
    let mut g = Game::new(Mino::T, [Mino::I; 32]);
    g.board.set(4, 0);
    g.board.set(5, 0);
    g.regen_collision_map();
    let poses = run_expander(&mut g, &config);
    assert!(poses.len() > 0);
    for &(x, y, rot, _) in &poses {
        assert!(!g.collision_map.test(x, y, rot), "pose ({},{},{}) collides", x, y, rot);
        let below = y == 0 || g.collision_map.test(x, y - 1, rot);
        assert!(below, "pose ({},{},{}) floats", x, y, rot);
    }
}

#[test]
fn expander_emits_each_pose_once() {
    let config = cfg();
    let mut g = Game::new(Mino::T, [Mino::I; 32]);
    let poses = run_expander(&mut g, &config);
    for i in 0..poses.len() {
        for j in (i + 1)..poses.len() {
            assert_ne!(poses[i], poses[j], "pose emitted twice");
        }
    }
}

#[test]
fn expander_is_repeatable() {
    let config = cfg();
    let mut g = Game::new(Mino::S, [Mino::T; 32]);
    g.board.set(2, 0);
    g.board.set(7, 1);
    g.regen_collision_map();
    let first = run_expander(&mut g, &config);
    let second = run_expander(&mut g, &config);
    assert_eq!(first, second);
}

#[test]
fn every_emitted_pose_is_reachable_by_keys() {
    let config = cfg();
    let mut g = Game::new(Mino::I, [Mino::T; 32]);
    let poses = run_expander(&mut g, &config);
    assert!(poses.len() > 0);
    for &(x, y, rot, spin) in &poses {
        let keys = get_keys(g.clone(), &config, (x, y, rot, spin))
            .unwrap_or_else(|| panic!("no keys for pose ({},{},{})", x, y, rot));
        let mut replay = g.clone();
        for k in &keys {
            k.run(&mut replay, &config);
        }
        let mut have: Vec<(i32, i32)> = replay
            .piece
            .blocks()
            .iter()
            .map(|&(dx, dy)| (replay.piece.x as i32 - dx as i32, replay.piece.y as i32 - dy as i32))
            .collect();
        have.sort();
        assert_eq!(have, cells_of(Mino::I, rot, x as i32, y as i32));
        assert_eq!(replay.spin, spin);
    }
}

#[test]
fn heuristic_of_the_empty_game_is_zero() {
    let g = Game::new(Mino::I, [Mino::T; 32]);
    let w = weights_handtuned();
    assert_eq!(eval(&w, &g, 0, Vec::new()), 0);
}

#[test]
fn heuristic_penalises_holes() {
    let mut g = Game::new(Mino::I, [Mino::T; 32]);
    let w = weights_handtuned();
    let clean = eval(&w, &g, 0, Vec::new());
    g.board.set(0, 1);
    let holey = eval(&w, &g, 0, Vec::new());
    assert!(holey < clean);
}

#[test]
fn beam_search_returns_a_sound_first_placement() {
    let config = cfg();
    let g = Game::new(Mino::L, [Mino::T; 32]);
    let w = weights_handtuned();
    let (action, projected) = beam_search(g.clone(), &config, 1, &w).expect("a placement");
    let (x, y, rot, used_hold, _) = action;
    assert!(rot < 4);
    let shape = if used_hold { Mino::T } else { Mino::L };
    let mut check = Game::new(shape, [Mino::T; 32]);
    check.regen_collision_map();
    assert!(!check.collision_map.test(x, y, rot));
    assert!(y == 0 || check.collision_map.test(x, y - 1, rot));
    // the projected game advanced by one placement
    assert_eq!(projected.queue_ptr, if used_hold { 2 } else { 1 });
}

#[test]
fn beam_search_survives_an_almost_full_board() {
    let config = cfg();
    let mut g = Game::new(Mino::I, [Mino::T; 32]);
    for x in 0..10 {
        for y in 0..18 {
            if x != 9 {
                g.board.set(x, y);
            }
        }
    }
    g.regen_collision_map();
    let w = weights_handtuned();
    let r = beam_search(g, &config, 2, &w);
    assert!(r.is_some());
}
