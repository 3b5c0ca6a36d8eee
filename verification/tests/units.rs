use freertos_rs::{Duration, DurationTicks};

#[test]
fn duration_constructors() {
    assert_eq!(0, Duration::zero().to_ticks());
    assert_eq!(1, Duration::eps().to_ticks());
    assert_eq!(0xffff_ffff, Duration::infinite(0xffff_ffff).to_ticks());
    assert_eq!(0xffff, Duration::infinite(0xffff).to_ticks());
    assert_eq!(25, Duration::ticks(25).to_ticks());
    assert_eq!(Duration::ticks(0), Duration::zero());
}

#[test]
fn duration_ms_rounds_down_to_whole_ticks() {
    assert_eq!(100, Duration::ms(1000, 10).to_ticks());
    assert_eq!(100, Duration::ms(1009, 10).to_ticks());
    assert_eq!(0, Duration::ms(9, 10).to_ticks());
    assert_eq!(50, Duration::ms(50, 1).to_ticks());
}

#[test]
fn duration_to_ms() {
    assert_eq!(1000, Duration::ticks(100).to_ms(10));
    assert_eq!(0, Duration::zero().to_ms(10));
    assert_eq!(0xffff_ffff, Duration::infinite(0xffff_ffff).to_ms(1));
}

#[test]
fn duration_round_trips() {
    for period in 1..20u32 {
        for ms in 0..500u32 {
            let back = Duration::ms(ms, period).to_ms(period);
            assert!(back <= ms && ms < back + period);
        }
        for ticks in 0..500u32 {
            let d = Duration::ticks(ticks);
            assert_eq!(d, Duration::ms(d.to_ms(period), period));
        }
    }
}

#[test]
fn duration_is_its_ticks() {
    assert_eq!(Duration::zero(), Duration::ticks(0));
    assert_eq!(Duration::eps(), Duration::ticks(1));
    assert_ne!(Duration::eps(), Duration::zero());
    assert_eq!(Duration::ticks(9), Duration::ms(90, 10));
    for t in 0..100u32 {
        assert_eq!(t, Duration::ticks(t).to_ticks());
        if Duration::ticks(t) != Duration::zero() {
            assert!(Duration::ticks(t).to_ticks() >= Duration::eps().to_ticks());
        }
    }
}
