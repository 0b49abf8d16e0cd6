use quinn_proto::time::{Duration, Instant, MAX_NANOS};

#[test]
fn duration_units() {
    assert_eq!(Duration::from_secs(2).as_nanos(), 2_000_000_000);
    assert_eq!(Duration::from_millis(3).as_nanos(), 3_000_000);
    assert_eq!(Duration::from_micros(4).as_nanos(), 4_000);
    assert_eq!(Duration::from_nanos(5).as_nanos(), 5);
    let d = Duration::new(7, 250);
    assert_eq!(d.as_secs(), 7);
    assert_eq!(d.subsec_nanos(), 250);
    assert!(Duration::zero().is_zero());
    assert!(!d.is_zero());
}

#[test]
fn duration_arithmetic() {
    let a = Duration::from_millis(30);
    let b = Duration::from_millis(12);
    assert_eq!(a.plus(b), Duration::from_millis(42));
    assert_eq!(a.minus(b), Duration::from_millis(18));
    assert_eq!(b.times(3), Duration::from_millis(36));
    assert_eq!(Duration::from_nanos(7).divided_by(2), Duration::from_nanos(3));
    assert_eq!(a.max(b), a);
    assert_eq!(b.max(a), a);
    assert!(b.lt(&a));
    assert!(!a.lt(&a));
    assert!(a.le(&a));
}

#[test]
fn duration_largest_span() {
    let d = Duration::new(u64::MAX, 999_999_999);
    assert_eq!(d.as_nanos(), MAX_NANOS);
    assert_eq!(d.as_secs(), u64::MAX);
    assert_eq!(d.subsec_nanos(), 999_999_999);
}

#[test]
fn instant_elapsed_saturates() {
    let early = Instant::from_origin(Duration::from_millis(5));
    let late = Instant::from_origin(Duration::from_millis(9));
    assert_eq!(late.saturating_duration_since(early), Duration::from_millis(4));
    assert_eq!(early.saturating_duration_since(late), Duration::zero());
    assert_eq!(early.plus(Duration::from_millis(4)), late);
    assert_eq!(late.since_origin(), Duration::from_millis(9));
}
