use minobot::data::ComboTable;
use minobot::data::KickTable;
use minobot::data::Mino;
use minobot::data::Move;
use minobot::data::Spin;
use minobot::data::Spins;
use minobot::game::Game;
use minobot::game::GameConfig;
use minobot::keyfinder::get_keys;

fn cfg() -> GameConfig {
    GameConfig {
        kicks: KickTable::SRSPlus,
        spins: Spins::MiniPlus,
        b2b_charging: true,
        b2b_charge_at: 0,
        b2b_charge_base: 0,
        b2b_chaining: false,
        combo_table: ComboTable::Multiplier,
        garbage_multiplier_milli: 1000,
        pc_b2b: 1,
        pc_send: 5,
        garbage_special_bonus: true,
    }
}

fn piece_cells(g: &Game) -> Vec<(i32, i32)> {
    let mut cells: Vec<(i32, i32)> = g
        .piece
        .blocks()
        .iter()
        .map(|&(dx, dy)| (g.piece.x as i32 - dx as i32, g.piece.y as i32 - dy as i32))
        .collect();
    cells.sort();
    cells
}

fn cells_of(m: Mino, rot: u8, x: i32, y: i32) -> Vec<(i32, i32)> {
    let mut cells: Vec<(i32, i32)> = m
        .rot(rot)
        .iter()
        .map(|&(dx, dy)| (x - dx as i32, y - dy as i32))
        .collect();
    cells.sort();
    cells
}

#[test]
fn spawn_pose() {
    let g = Game::new(Mino::I, [Mino::T; 32]);
    assert_eq!((g.piece.x, g.piece.y, g.piece.rot), (6, 22, 0));
    assert_eq!(g.b2b, -1);
    assert_eq!(g.combo, -1);
    assert!(g.hold.is_none());
    let g2 = Game::new(Mino::O, [Mino::T; 32]);
    assert_eq!(g2.piece.x, 5);
}

#[test]
fn i_piece_rotates_clockwise_without_kick() {
    let config = cfg();
    let mut g = Game::new(Mino::I, [Mino::T; 32]);
    g.piece.x = 4;
    g.piece.y = 21;
    g.piece.rot = 0;
    let (ok, kicked) = g.rotate(1, &config);
    assert!(ok);
    assert!(!kicked);
    assert_eq!((g.piece.x, g.piece.y, g.piece.rot), (4, 21, 1));
    assert_eq!(g.spin, Spin::NoSpin);
}

#[test]
fn s_piece_kick_exactness() {
    let config = cfg();
    let mut g = Game::new(Mino::S, [Mino::T; 32]);
    g.board.set(3, 1);
    g.regen_collision_map();
    g.piece.x = 3;
    g.piece.y = 3;
    g.piece.rot = 0;
    let (ok, kicked) = g.rotate(1, &config);
    assert!(ok);
    assert!(kicked);
    assert_eq!((g.piece.x, g.piece.y, g.piece.rot), (2, 3, 1));
}

#[test]
fn movement_and_drops() {
    let config = cfg();
    let mut g = Game::new(Mino::I, [Mino::T; 32]);
    assert!(g.move_left());
    assert_eq!(g.piece.x, 5);
    assert!(g.move_right());
    assert_eq!(g.piece.x, 6);
    assert!(g.das_left());
    assert_eq!(g.piece.x, 3);
    assert!(g.das_right());
    assert_eq!(g.piece.x, 9);
    assert!(g.soft_drop());
    assert_eq!(g.piece.y, 1);
    assert!(!g.soft_drop());
    assert!(!g.topped_out());
    let _ = config;
}

#[test]
fn hold_stores_then_swaps() {
    let mut g = Game::new(Mino::I, [Mino::T; 32]);
    assert!(g.hold());
    assert_eq!(g.hold, Some(Mino::I));
    assert_eq!(g.piece.mino, Mino::T);
    assert_eq!(g.queue_ptr, 1);
    assert!(g.hold());
    assert_eq!(g.hold, Some(Mino::T));
    assert_eq!(g.piece.mino, Mino::I);
    assert_eq!(g.queue_ptr, 1);
}

#[test]
fn perfect_clear_adds_exactly_the_reward() {
    let config = cfg();
    // the same horizontal I drop closes the bottom row; once the board
    // becomes empty (a perfect clear), once two stray cells remain
    let mut sent = [0u16; 2];
    for variant in 0..2 {
        let mut g = Game::new(Mino::I, [Mino::T; 32]);
        for x in 0..6 {
            g.board.set(x, 0);
        }
        if variant == 1 {
            g.board.set(0, 1);
            g.board.set(0, 2);
        }
        g.regen_collision_map();
        g.piece.x = 9;
        g.piece.y = 1;
        g.piece.rot = 0;
        let (s, clear) = g.hard_drop(&config);
        assert_eq!(clear, Some(Spin::NoSpin));
        sent[variant] = s;
    }
    assert_eq!(sent[0], sent[1] + config.pc_send);
}

#[test]
fn back_to_back_counter_without_chaining() {
    let mut config = cfg();
    config.pc_b2b = 0;
    config.pc_send = 0;
    config.b2b_charging = false;
    config.combo_table = ComboTable::Off;
    let mut g = Game::new(Mino::I, [Mino::T; 32]);
    // two four-line clears in a row with a column-nine I piece
    for y in 0..4 {
        for x in 0..9 {
            g.board.set(x, y);
        }
    }
    g.regen_collision_map();
    g.piece.x = 10;
    g.piece.y = 3;
    g.piece.rot = 1;
    let (sent1, clear1) = g.hard_drop(&config);
    assert_eq!(clear1, Some(Spin::Normal));
    assert_eq!(g.b2b, 0);
    assert_eq!(sent1, 4);
    // rebuild and drop a second one
    for y in 0..4 {
        for x in 0..9 {
            g.board.set(x, y);
        }
    }
    g.piece.mino = Mino::I;
    g.piece.x = 10;
    g.piece.y = 3;
    g.piece.rot = 1;
    g.regen_collision_map();
    let (sent2, clear2) = g.hard_drop(&config);
    assert_eq!(clear2, Some(Spin::Normal));
    assert_eq!(g.b2b, 1);
    // back-to-back without chaining adds exactly one row
    assert_eq!(sent2, 5);
}

#[test]
fn pending_garbage_lands_after_a_quiet_drop() {
    let mut config = cfg();
    config.pc_send = 0;
    let mut g = Game::new(Mino::O, [Mino::T; 32]);
    g.garbage.push(minobot::game::Garbage { col: 3, amt: 2, time: 0 });
    let (sent, clear) = g.hard_drop(&config);
    assert_eq!(sent, 0);
    assert!(clear.is_none());
    // two garbage rows with the hole at column 3
    for x in 0..10 {
        for y in 0..2 {
            assert_eq!(g.board.is_occupied(x, y), x != 3, "cell ({}, {})", x, y);
        }
    }
    assert!(g.garbage.is_empty());
}

#[test]
fn sent_damage_consumes_pending_garbage() {
    let mut config = cfg();
    config.pc_send = 0;
    config.pc_b2b = 0;
    config.b2b_charging = false;
    let mut g = Game::new(Mino::I, [Mino::T; 32]);
    for y in 0..4 {
        for x in 0..9 {
            g.board.set(x, y);
        }
    }
    g.regen_collision_map();
    g.piece.x = 10;
    g.piece.y = 3;
    g.piece.rot = 1;
    g.garbage.push(minobot::game::Garbage { col: 0, amt: 3, time: 1 });
    g.garbage.push(minobot::game::Garbage { col: 1, amt: 4, time: 2 });
    // the tetris sends four rows: three erase the first entry, one dents the second
    let (sent, _) = g.hard_drop(&config);
    assert_eq!(sent, 0);
    assert_eq!(g.garbage.len(), 1);
    assert_eq!(g.garbage[0].amt, 3);
    assert_eq!(g.garbage[0].col, 1);
    // and its delay ticked down
    assert_eq!(g.garbage[0].time, 1);
}

#[test]
fn t_slot_beside_the_wall_is_reachable_by_keys() {
    let config = cfg();
    let mut g = Game::new(Mino::T, [Mino::I; 32]);
    for &(x, y) in &[(0, 0), (1, 0), (2, 0), (0, 1), (0, 2), (0, 3), (1, 3), (1, 4)] {
        g.board.set(x, y);
    }
    g.regen_collision_map();
    // at origin (4, 2) only the south-west corner is filled, so the corner
    // rule classifies the landing as a plain placement
    let keys = get_keys(g.clone(), &config, (4, 2, 3, Spin::NoSpin));
    let keys = keys.expect("a key sequence reaching the slot");
    assert_eq!(*keys.last().unwrap(), Move::HardDrop);
    let mut replay = g.clone();
    for k in &keys {
        k.run(&mut replay, &config);
    }
    assert_eq!(replay.spin, Spin::NoSpin);
    assert_eq!(piece_cells(&replay), cells_of(Mino::T, 3, 4, 2));
}

#[test]
fn flip_rotation_without_kick() {
    let config = cfg();
    let mut g = Game::new(Mino::I, [Mino::T; 32]);
    g.piece.x = 4;
    g.piece.y = 21;
    let (ok, _) = g.rotate(2, &config);
    assert!(ok);
    assert_eq!(g.piece.rot, 2);
}

#[test]
fn t_spin_corner_rule() {
    let mut g = Game::new(Mino::T, [Mino::I; 32]);
    // origin (2, 1): the two low corners are off the board and count as
    // filled; one filled high corner makes three
    g.board.set(0, 1);
    g.regen_collision_map();
    g.piece.x = 2;
    g.piece.y = 1;
    g.piece.rot = 2;
    // corners in order north-west, north-east, south-east, south-west:
    // rot 2 faces south-east and south-west, both filled: a full spin
    assert_eq!(g.detect_t_spin(), Spin::Normal);
    g.piece.rot = 0;
    // rot 0 faces north-west and north-east; north-east is open: a mini
    assert_eq!(g.detect_t_spin(), Spin::Mini);
}

#[test]
fn spins_off_policy_classifies_nothing() {
    let mut config = cfg();
    config.spins = Spins::Off;
    let mut g = Game::new(Mino::T, [Mino::I; 32]);
    g.spin = Spin::Normal;
    g.update_spin(false, &config);
    assert_eq!(g.spin, Spin::NoSpin);
}

#[test]
fn breaking_a_charged_chain_pays_out() {
    let mut config = cfg();
    config.pc_send = 0;
    config.pc_b2b = 0;
    // a single plain clear breaks a back-to-back chain of height two:
    // the charge pays (2 - 0 + 0 + 1) rows
    let mut g = Game::new(Mino::I, [Mino::T; 32]);
    g.b2b = 2;
    for x in 0..9 {
        g.board.set(x, 0);
    }
    g.regen_collision_map();
    g.piece.x = 10;
    g.piece.y = 3;
    g.piece.rot = 1;
    let (sent, clear) = g.hard_drop(&config);
    assert_eq!(clear, Some(Spin::NoSpin));
    assert_eq!(g.b2b, -1);
    assert_eq!(sent, 3);
}

#[test]
fn clearing_garbage_with_a_special_clear_pays_a_bonus() {
    for (bonus, want) in [(true, 5u16), (false, 4u16)] {
        let mut config = cfg();
        config.pc_send = 0;
        config.pc_b2b = 0;
        config.garbage_special_bonus = bonus;
        let mut g = Game::new(Mino::I, [Mino::T; 32]);
        g.board.insert_garbage(1, 9);
        for y in 1..4 {
            for x in 0..9 {
                g.board.set(x, y);
            }
        }
        g.regen_collision_map();
        g.piece.x = 10;
        g.piece.y = 3;
        g.piece.rot = 1;
        let (sent, clear) = g.hard_drop(&config);
        assert_eq!(clear, Some(Spin::Normal));
        assert_eq!(sent, want);
    }
}
