use rpi_os::timer::{now, wait_at_least, wait_is_over, Duration, TimerValue};

#[test]
fn durations_normalise_and_add() {
    let d = Duration::new(1, 1_500_000_000);
    assert_eq!(d.as_secs(), 2);
    assert_eq!(d.subsec_nanos(), 500_000_000);
    assert_eq!(d.as_nanos(), 2_500_000_000);
    assert_eq!(d.add(Duration::new(0, 600_000_000)), Duration::new(3, 100_000_000));
    assert_eq!(d.sub(Duration::new(2, 0)), Duration::new(0, 500_000_000));
    assert!(Duration::new(0, 5).lt(Duration::new(1, 0)));
    assert_eq!(Duration::from_nanos(1_000_000_001), Duration::new(1, 1));
}

#[test]
fn ticks_convert_to_time() {
    let f = 62_500_000;
    assert_eq!(TimerValue::new(62_500_000).to_duration(f), Duration::new(1, 0));
    assert_eq!(TimerValue::new(1).to_duration(f), Duration::new(0, 16));
    assert_eq!(now(125_000_000, f), Duration::new(2, 0));
    assert_eq!(TimerValue::new(3).add(TimerValue::new(4)).ticks(), 7);
}

#[test]
fn time_converts_to_ticks_or_fails() {
    let f = 62_500_000;
    assert_eq!(TimerValue::try_from_duration(Duration::new(2, 0), f).unwrap().ticks(), 125_000_000);
    assert!(TimerValue::try_from_duration(Duration::new(u64::MAX, 0), f).is_err());
    assert_eq!(TimerValue::max().ticks(), u64::MAX);
}

#[test]
fn waits_last_at_least_their_duration() {
    let start = Duration::new(10, 0);
    let target = wait_at_least(start, Duration::new(0, 250));
    assert_eq!(target, Duration::new(10, 250));
    assert!(!wait_is_over(Duration::new(10, 249), target));
    assert!(wait_is_over(Duration::new(10, 250), target));
}
