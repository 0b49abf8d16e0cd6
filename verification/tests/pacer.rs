use quinn_proto::pacing::{optimal_capacity, Pacer};
use quinn_proto::time::{Duration, Instant};

fn at_ms(n: u64) -> Instant {
    Instant::from_origin(Duration::from_millis(n))
}

fn at_nanos(n: u64) -> Instant {
    Instant::from_origin(Duration::from_nanos(n))
}

#[test]
fn capacity_is_window_share_of_burst_interval() {
    // 1 MB window over 100 ms: 2 ms carry 20 000 bytes
    assert_eq!(optimal_capacity(Duration::from_millis(100), 1_000_000, 1200), 20_000);
}

#[test]
fn capacity_at_least_ten_packets() {
    assert_eq!(optimal_capacity(Duration::from_millis(100), 10_000, 1200), 12_000);
}

#[test]
fn capacity_at_most_256_packets() {
    assert_eq!(optimal_capacity(Duration::from_millis(100), 1_000_000_000, 1200), 307_200);
}

#[test]
fn capacity_with_zero_rtt_counts_one_nanosecond() {
    assert_eq!(optimal_capacity(Duration::zero(), 1, 10_000), 2_000_000);
    assert_eq!(optimal_capacity(Duration::from_nanos(1), 1, 10_000), 2_000_000);
}

#[test]
fn capacity_quotient_wraps_like_a_cast() {
    // u64::MAX * 2_000_000 wraps to 2^64 - 2_000_000, which the upper bound holds
    assert_eq!(optimal_capacity(Duration::from_nanos(1), u64::MAX, 1), 256);
    // 2^64 exactly wraps to 0, which the lower bound raises
    assert_eq!(optimal_capacity(Duration::from_nanos(1_000_000), 1 << 63, 1), 10);
}

#[test]
fn fresh_pacer_lets_full_bucket_through() {
    let mut p = Pacer::new(Duration::from_millis(100), 1_000_000, 1200, at_ms(0));
    assert_eq!(p.delay(Duration::from_millis(100), 20_000, 1200, 1_000_000, at_ms(0), 1_000_000), None);
}

#[test]
fn empty_bucket_waits_for_refill() {
    let mut p = Pacer::new(Duration::from_millis(100), 1_000_000, 1200, at_ms(0));
    p.on_transmit(20_000);
    let rtt = Duration::from_millis(100);
    // no token left: 1200 bytes at 1 MB/s take 1.2 ms
    assert_eq!(p.delay(rtt, 1200, 1200, 1_000_000, at_ms(0), 1_000_000), Some(at_nanos(1_200_000)));
    // by then the bucket has refilled enough
    assert_eq!(p.delay(rtt, 1200, 1200, 1_000_000, at_nanos(1_200_000), 1_000_000), None);
}

#[test]
fn partial_bucket_waits_for_the_rest() {
    let mut p = Pacer::new(Duration::from_millis(100), 1_000_000, 1200, at_ms(0));
    p.on_transmit(19_400); // 600 tokens left
    let rtt = Duration::from_millis(100);
    assert_eq!(p.delay(rtt, 1200, 1200, 1_000_000, at_ms(0), 1_000_000), Some(at_nanos(600_000)));
}

#[test]
fn transmit_saturates_at_empty() {
    let mut p = Pacer::new(Duration::from_millis(100), 1_000_000, 1200, at_ms(0));
    p.on_transmit(30_000);
    let rtt = Duration::from_millis(100);
    assert_eq!(p.delay(rtt, 1, 1200, 1_000_000, at_ms(0), 1_000_000_000), Some(at_nanos(1)));
}

#[test]
fn refill_capped_at_capacity() {
    let mut p = Pacer::new(Duration::from_millis(100), 1_000_000, 1200, at_ms(0));
    p.on_transmit(20_000);
    let rtt = Duration::from_millis(100);
    // a full second brings in 1 MB, of which the bucket keeps 20 000 bytes
    assert_eq!(p.delay(rtt, 20_001, 1200, 1_000_000, at_ms(1000), 1_000_000), Some(at_nanos(1_000_001_000)));
}

#[test]
fn disabled_pacing_lets_everything_through() {
    let mut p = Pacer::new(Duration::from_millis(100), 1_000_000, 1200, at_ms(0));
    p.on_transmit(20_000);
    let rtt = Duration::from_millis(100);
    assert_eq!(p.delay(Duration::zero(), 1200, 1200, 1_000_000, at_ms(0), 1_000_000), None);
    assert_eq!(p.delay(rtt, 1200, 1200, 0, at_ms(0), 1_000_000), None);
    assert_eq!(p.delay(rtt, 1200, 1200, 1_000_000, at_ms(0), 0), None);
    // still empty afterwards
    assert_eq!(p.delay(rtt, 1200, 1200, 1_000_000, at_ms(0), 1_000_000), Some(at_nanos(1_200_000)));
}

#[test]
fn changed_window_rederives_capacity() {
    let mut p = Pacer::new(Duration::from_millis(100), 1_000_000, 1200, at_ms(0));
    let rtt = Duration::from_millis(100);
    // the window grows to 50 MB: the capacity becomes 256 packets (307 200 bytes),
    // the bucket keeps its 20 000 tokens
    assert_eq!(p.delay(rtt, 20_000, 1200, 50_000_000, at_ms(0), 1_000_000), None);
    p.on_transmit(20_000);
    assert_eq!(p.delay(rtt, 20_000, 1200, 50_000_000, at_ms(0), 1_000_000), Some(at_ms(20)));
    // a second later the larger bucket holds 300 000 bytes
    assert_eq!(p.delay(rtt, 300_000, 1200, 50_000_000, at_ms(1000), 1_000_000), None);
}

#[test]
fn grown_window_lets_larger_burst_through() {
    // capacity 10 000 bytes for a 100 000-byte window
    let mut p = Pacer::new(Duration::from_millis(100), 100_000, 1_000, at_ms(0));
    // with the window at 1 MB the capacity becomes 20 000 and a second refills it
    assert_eq!(
        p.delay(Duration::from_millis(100), 15_000, 1_000, 1_000_000, at_ms(1000), 1_000_000),
        None
    );
}

#[test]
fn shrunk_window_holds_bucket_to_new_capacity() {
    let mut p = Pacer::new(Duration::from_millis(100), 1_000_000, 1_000, at_ms(0));
    // 20 000 tokens; the window falls to 100 000 bytes: capacity 10 000
    assert_eq!(
        p.delay(Duration::from_millis(100), 12_000, 1_000, 100_000, at_ms(0), 1_000_000),
        Some(at_ms(2))
    );
}
