use minobot::damage::damage_calc;
use minobot::damage::ln1p_milli;
use minobot::data::ComboTable;
use minobot::data::Spin;

#[test]
fn base_damage_table() {
    // lines x spin, in milli rows
    assert_eq!(damage_calc(0, Spin::NoSpin, 0, 0, ComboTable::Off, false), 0);
    assert_eq!(damage_calc(1, Spin::NoSpin, 0, 0, ComboTable::Off, false), 0);
    assert_eq!(damage_calc(1, Spin::Normal, 0, 0, ComboTable::Off, false), 2000);
    assert_eq!(damage_calc(2, Spin::NoSpin, 0, 0, ComboTable::Off, false), 1000);
    assert_eq!(damage_calc(2, Spin::Mini, 0, 0, ComboTable::Off, false), 1000);
    assert_eq!(damage_calc(2, Spin::Normal, 0, 0, ComboTable::Off, false), 4000);
    assert_eq!(damage_calc(3, Spin::NoSpin, 0, 0, ComboTable::Off, false), 2000);
    assert_eq!(damage_calc(3, Spin::Normal, 0, 0, ComboTable::Off, false), 6000);
    assert_eq!(damage_calc(4, Spin::NoSpin, 0, 0, ComboTable::Off, false), 4000);
    assert_eq!(damage_calc(4, Spin::Mini, 0, 0, ComboTable::Off, false), 10000);
    assert_eq!(damage_calc(4, Spin::Normal, 0, 0, ComboTable::Off, false), 10000);
}

#[test]
fn damage_monotone_in_lines() {
    // the law proved in the library, checked here on concrete values
    for spin in [Spin::NoSpin, Spin::Mini, Spin::Normal] {
        let mut last = 0;
        for lines in 0..5 {
            let d = damage_calc(lines, spin, 0, 0, ComboTable::Off, false);
            assert!(d >= last, "damage dropped at {} lines", lines);
            last = d;
        }
    }
}

#[test]
fn b2b_without_chaining_adds_one_row() {
    // the second of two consecutive full T-spin doubles
    assert_eq!(damage_calc(2, Spin::Normal, 1, 0, ComboTable::Off, false), 5000);
}

#[test]
fn b2b_with_chaining_grows_with_the_chain() {
    let d1 = damage_calc(2, Spin::Normal, 1, 0, ComboTable::Off, true);
    let d2 = damage_calc(2, Spin::Normal, 2, 0, ComboTable::Off, true);
    let d9 = damage_calc(2, Spin::Normal, 9, 0, ComboTable::Off, true);
    assert_eq!(d1, 5000);
    assert!(d2 > d1);
    assert!(d9 > d2);
}

#[test]
fn additive_combo_tables_add() {
    // combo 3 in the classic table adds entry [2] = 1 row
    let base = damage_calc(2, Spin::NoSpin, 0, 0, ComboTable::Off, false);
    let with = damage_calc(2, Spin::NoSpin, 0, 3, ComboTable::Classic, false);
    assert_eq!(with, base + 1000);
    // deep combos clamp to the last entry
    let deep = damage_calc(2, Spin::NoSpin, 0, 100, ComboTable::Classic, false);
    assert_eq!(deep, base + 5000);
}

#[test]
fn multiplier_combo_is_monotone() {
    // the law proved in the library, checked here on concrete values
    let mut last = 0;
    for combo in 0..8 {
        let d = damage_calc(2, Spin::NoSpin, 0, combo, ComboTable::Multiplier, false);
        assert!(d >= last, "damage dropped at combo {}", combo);
        last = d;
    }
    // combo 1 multiplies by 1.25
    assert_eq!(
        damage_calc(2, Spin::Normal, 0, 1, ComboTable::Multiplier, false),
        5000
    );
}

#[test]
fn fixed_point_log_samples() {
    assert_eq!(ln1p_milli(0), 0);
    assert_eq!(ln1p_milli(1000), 691);
    assert_eq!(ln1p_milli(800), 577);
    // monotone on a sweep
    let mut last = 0;
    for x in 0..200u64 {
        let v = ln1p_milli(x * 997);
        assert!(v >= last);
        last = v;
    }
}
