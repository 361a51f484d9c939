use minobot::data::Mino;
use minobot::queue::Bag;
use minobot::queue::Queue;
use minobot::rng::RNG;

#[test]
fn generator_steps_are_exact() {
    let mut r = RNG::new(42);
    assert_eq!(r.seed, 42);
    assert_eq!(r.next(), 16807 * 42 % 2147483647);
    let mut zero = RNG::new(0);
    assert_eq!(zero.seed, 2147483646);
    zero.set_seed(2147483647);
    assert_eq!(zero.seed, 2147483646);
    let mut big = RNG::new(2147483650);
    assert_eq!(big.seed, 3);
    let _ = big.next();
    assert_eq!(big.index, 1);
}

#[test]
fn shuffle_is_a_deterministic_permutation() {
    let v: Vec<u32> = (0..7).collect();
    let mut r1 = RNG::new(1234);
    let mut r2 = RNG::new(1234);
    let s1 = r1.shuffle(v.clone());
    let s2 = r2.shuffle(v.clone());
    assert_eq!(s1, s2);
    let mut sorted = s1.clone();
    sorted.sort();
    assert_eq!(sorted, v);
    let mut r3 = RNG::new(99);
    let empty: Vec<u32> = Vec::new();
    assert_eq!(r3.shuffle(empty), Vec::<u32>::new());
}

#[test]
fn bag_cycle_holds_each_shape_once() {
    let cycle = Bag::Bag7.get_cycle();
    assert_eq!(cycle.len(), 7);
    for m in [Mino::I, Mino::J, Mino::L, Mino::O, Mino::S, Mino::T, Mino::Z] {
        assert_eq!(cycle.iter().filter(|&&c| c == m).count(), 1);
    }
}

#[test]
fn queue_keeps_the_initial_pieces_in_front() {
    let q = Queue::new(Bag::Bag7, 7, 32, vec![Mino::O, Mino::J]);
    assert!(q.queue.len() >= 32);
    let front = q.get_front_32();
    assert_eq!(front[0], Mino::O);
    assert_eq!(front[1], Mino::J);
}

#[test]
fn queue_is_deterministic_and_refills() {
    let mut q1 = Queue::new(Bag::Bag7, 1234, 32, Vec::new());
    let mut q2 = Queue::new(Bag::Bag7, 1234, 32, Vec::new());
    assert_eq!(q1.get_front_32(), q2.get_front_32());
    for _ in 0..40 {
        let a = q1.shift();
        let b = q2.shift();
        assert_eq!(a, b);
        assert!(q1.queue.len() >= 32);
    }
    // each consecutive window of seven pieces drawn from a fresh queue is a
    // full bag
    let mut q3 = Queue::new(Bag::Bag7, 77, 32, Vec::new());
    for _ in 0..3 {
        let mut bag: Vec<Mino> = (0..7).map(|_| q3.shift()).collect();
        bag.sort_by_key(|m| format!("{:?}", m));
        let mut want = Bag::Bag7.get_cycle();
        want.sort_by_key(|m| format!("{:?}", m));
        assert_eq!(bag, want);
    }
}
