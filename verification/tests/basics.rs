use reversi::rng::SmallRng;
use reversi::selfplay::random_playout;
use reversi::square::Square;

#[test]
fn squares_round_trip_their_index() {
    for i in 0..64 {
        let s = Square::from_index(i).unwrap();
        assert_eq!(s.index(), i);
        assert_eq!(s.row() as usize, i / 8);
        assert_eq!(s.col() as usize, i % 8);
        assert_eq!(Square::new(s.row(), s.col()), Some(s));
    }
    assert_eq!(Square::from_index(64), None);
    assert_eq!(Square::new(8, 0), None);
    assert_eq!(Square::new(0, 8), None);
    assert_eq!(Square::new(2, 3).unwrap().index(), 19);
}

#[test]
fn all_squares_in_index_order() {
    let all = Square::all();
    assert_eq!(all.len(), 64);
    for (i, s) in all.iter().enumerate() {
        assert_eq!(s.index(), i);
    }
}

#[test]
fn rng_sequence_is_xorshift_star() {
    let mut zero = SmallRng::new(0);
    let mut one = SmallRng::new(1);
    assert_eq!(zero.next_u64(), 0x47e4_ce4b_896c_dd1d);
    assert_eq!(one.next_u64(), 0x47e4_ce4b_896c_dd1d);
    assert_eq!(one.next_u64(), 0xabcf_a6a8_e079_651d);
    assert_eq!(one.next_u64(), 0xb9d1_0d8f_eb73_1f57);
    let mut r = SmallRng::new(42);
    assert_eq!(r.below(10), 0);
}

#[test]
fn below_stays_in_range() {
    let mut r = SmallRng::new(7);
    for bound in 1..200 {
        assert!(r.below(bound) < bound);
    }
}

#[test]
fn playouts_finish_and_repeat_from_their_seed() {
    for seed in 0..20 {
        let a = random_playout(seed);
        let b = random_playout(seed);
        assert_eq!(a.outcome, b.outcome);
        assert_eq!(a.plies, b.plies);
        assert!(a.plies >= 9, "the fastest game takes nine plies");
        assert!(a.plies < 200);
    }
}
