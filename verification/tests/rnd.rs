use freertos_rs::Rnd;

#[test]
fn test_rnd() {
    let rnd = Rnd::new(1);
    let numbers: Vec<u64> = rnd.take(1000);
    assert_eq!([1, 1103527590, 377401575], &numbers[0..3]);
}

#[test]
fn rnd_next_hands_out_the_seed_then_steps() {
    let mut rnd = Rnd::new(1);
    assert_eq!(1, rnd.next());
    assert_eq!(1103527590, rnd.next());
    assert_eq!(377401575, rnd.next());
}

#[test]
fn rnd_next_num_is_below_max() {
    let mut rnd = Rnd::new(1);
    assert_eq!(1, rnd.next_num(10));
    assert_eq!(1103527590 % 7, rnd.next_num(7));
    let mut rnd = Rnd::new(100);
    for _ in 0..1000 {
        assert!(rnd.next_num(32) < 32);
    }
}

#[test]
fn rnd_next_num_range_stays_in_range() {
    let mut rnd = Rnd::new(1);
    assert_eq!(1 % 5 + 10, rnd.next_num_range(10, 15));
    let mut rnd = Rnd::new(42);
    for _ in 0..1000 {
        let x = rnd.next_num_range(3, 9);
        assert!(3 <= x && x < 9);
    }
}

#[test]
fn rnd_take_is_a_prefix_of_a_longer_take() {
    let short: Vec<u64> = Rnd::new(7).take(10);
    let long: Vec<u64> = Rnd::new(7).take(100);
    assert_eq!(&short[..], &long[0..10]);
    assert_eq!(0, Rnd::new(u64::MAX).take(0).len());
}

#[test]
fn rnd_seeds_stay_below_the_modulus() {
    let mut rnd = Rnd::new(123456789);
    rnd.next();
    for _ in 0..1000 {
        assert!(rnd.next() < (1u64 << 31));
    }
}
