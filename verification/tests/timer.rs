use sword_arena::timer::Timer;

#[test]
fn from_millis_counts_down_and_fires() {
    let mut t = Timer::from_millis(100);
    assert!(!t.ready);
    t.update(40_000_000);
    assert!(!t.ready);
    assert_eq!(t.time_left, 60_000_000);
    t.update(70_000_000);
    assert!(t.ready);
    assert_eq!(t.time_left, 0);
}

#[test]
fn ready_is_sticky_until_reset() {
    let mut t = Timer::from_nanos(10);
    t.update(11);
    assert!(t.ready);
    t.update(1);
    assert!(t.ready);
    t.reset();
    assert!(!t.ready);
    assert_eq!(t.time_left, 10);
}

#[test]
fn exact_exhaustion_fires_on_the_next_update() {
    let mut t = Timer::from_nanos(10);
    t.update(10);
    assert!(!t.ready);
    assert_eq!(t.time_left, 0);
    t.update(1);
    assert!(t.ready);
}

#[test]
fn transient_time_does_not_change_configured_duration() {
    let mut t = Timer::from_millis(5000);
    t.set_millis_transient(1000);
    assert_eq!(t.time_left, 1_000_000_000);
    assert!(!t.ready);
    t.update(1_500_000_000);
    assert!(t.ready);
    t.reset();
    assert_eq!(t.time_left, 5_000_000_000);
}
