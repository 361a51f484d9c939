use minobot::board::Board;

fn full_row(b: &mut Board, y: usize) {
    for x in 0..10 {
        b.set(x, y);
    }
}

fn wf_check(b: &Board) {
    for x in 0..10 {
        assert_eq!(b.cols[x] >> 40, 0, "column {} reaches above the usable rows", x);
    }
    assert!(b.garbage <= 40);
}

#[test]
fn new_board_is_empty() {
    let b = Board::new();
    wf_check(&b);
    for x in 0..10 {
        for y in 0..40 {
            assert!(!b.is_occupied(x, y));
        }
    }
    assert!(b.is_occupied(-1, 0));
    assert!(b.is_occupied(0, -1));
    assert!(b.is_occupied(10, 0));
    assert!(b.is_occupied(0, 40));
}

#[test]
fn set_and_query() {
    let mut b = Board::new();
    b.set(3, 7);
    assert!(b.is_occupied(3, 7));
    assert!(!b.is_occupied(3, 6));
    assert!(!b.is_occupied(2, 7));
    wf_check(&b);
}

#[test]
fn clear_removes_full_rows_and_shifts() {
    let mut b = Board::new();
    full_row(&mut b, 0);
    b.set(0, 1);
    full_row(&mut b, 2);
    b.set(5, 3);
    b.garbage = 3;
    let (cleared, garbage_cleared) = b.clear(0, 5);
    assert_eq!(cleared, 2);
    assert!(garbage_cleared);
    assert_eq!(b.garbage, 1);
    // old row 1 (only column 0) drops to row 0; old row 3 drops to row 1
    assert!(b.is_occupied(0, 0));
    assert!(!b.is_occupied(5, 0));
    assert!(b.is_occupied(5, 1));
    assert!(!b.is_occupied(5, 3));
    wf_check(&b);
}

#[test]
fn clear_outside_window_keeps_full_rows() {
    let mut b = Board::new();
    full_row(&mut b, 5);
    let (cleared, _) = b.clear(0, 3);
    assert_eq!(cleared, 0);
    assert!(b.is_occupied(0, 5));
}

#[test]
fn insert_garbage_pattern() {
    let mut b = Board::new();
    b.set(0, 0);
    b.garbage = 1;
    b.insert_garbage(2, 4);
    // every column but 4 has its two bottom rows set; column 4 has them clear
    for x in 0..10 {
        for y in 0..2 {
            assert_eq!(b.is_occupied(x, y), x != 4, "cell ({}, {})", x, y);
        }
    }
    // the old cell shifted up by two
    assert!(b.is_occupied(0, 2));
    assert_eq!(b.garbage, 3);
    wf_check(&b);
}

#[test]
fn insert_garbage_clamps_height() {
    let mut b = Board::new();
    b.garbage = 39;
    b.insert_garbage(5, 0);
    assert_eq!(b.garbage, 40);
    wf_check(&b);
}

#[test]
fn perfect_clear_detection() {
    let mut b = Board::new();
    assert!(b.is_pc());
    b.set(4, 0);
    assert!(!b.is_pc());
}

#[test]
fn board_statistics() {
    let mut b = Board::new();
    assert_eq!(b.max_height(), 0);
    assert_eq!(b.count_holes(), 0);
    assert_eq!(b.unevenness(), 0);
    assert_eq!(b.wells(), 0);
    // column 0: filled at rows 0 and 2 -> height 3, one hole
    b.set(0, 0);
    b.set(0, 2);
    assert_eq!(b.max_height(), 3);
    assert_eq!(b.count_holes(), 1);
    // |3-0| + 0*8 = 3
    assert_eq!(b.unevenness(), 3);
    assert_eq!(b.center_height(), 0);
    b.set(4, 5);
    assert_eq!(b.center_height(), 6);
    assert_eq!(b.max_height(), 6);
}

#[test]
fn covered_and_overstacked_holes() {
    let mut b = Board::new();
    // column 1 has a hole at row 0 under a filled row 1, neighbours filled at row 0
    b.set(0, 0);
    b.set(2, 0);
    b.set(1, 1);
    assert_eq!(b.count_holes(), 1);
    assert_eq!(b.covered_holes(), 1);
    // top bit at 1, lowest empty-under-filled at 0: distance 1 - 0 - 1 = 0
    assert_eq!(b.overstacked_holes(), 0);
    b.set(1, 3);
    // top bit at 3, lowest empty-under-filled cell at 0: distance 3 - 0 - 1 = 2
    assert_eq!(b.overstacked_holes(), 2);
}

#[test]
fn wells_count() {
    let mut b = Board::new();
    // columns 0 and 2 tall, column 1 empty: one well, minus one -> 0
    for y in 0..4 {
        b.set(0, y);
        b.set(2, y);
    }
    assert_eq!(b.wells(), 0);
    // a second well at column 4 (columns 3 and 5 tall)
    for y in 0..4 {
        b.set(3, y);
        b.set(5, y);
    }
    assert!(b.wells() >= 1);
}
