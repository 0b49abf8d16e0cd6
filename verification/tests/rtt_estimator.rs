use quinn_proto::rtt::{timer_granularity, RttEstimator};
use quinn_proto::time::Duration;

fn ms(n: u64) -> Duration {
    Duration::from_millis(n)
}

#[test]
fn new_estimator_is_empty() {
    let rtt = RttEstimator::new();
    assert_eq!(rtt.min(), Duration::zero());
    assert_eq!(rtt.latest(), Duration::zero());
    assert_eq!(rtt.smoothed(), Duration::zero());
    assert_eq!(rtt.var(), Duration::zero());
    assert_eq!(rtt.get(), Duration::zero());
    assert_eq!(rtt.is_ce(), None);
    assert_eq!(rtt.ce_fraction(), None);
}

#[test]
fn first_sample_sets_estimate_and_half_variation() {
    let mut rtt = RttEstimator::new();
    rtt.update(ms(0), ms(100));
    assert_eq!(rtt.latest(), ms(100));
    assert_eq!(rtt.min(), ms(100));
    assert_eq!(rtt.smoothed(), ms(100));
    assert_eq!(rtt.var(), ms(50));
}

#[test]
fn later_samples_move_estimate_by_eighths() {
    let mut rtt = RttEstimator::new();
    rtt.update(ms(0), ms(100));
    rtt.update(ms(10), ms(200));
    // adjusted sample 190 ms; delta 90 ms
    assert_eq!(rtt.min(), ms(100));
    assert_eq!(rtt.latest(), ms(200));
    assert_eq!(rtt.var(), ms(60));
    assert_eq!(rtt.smoothed(), Duration::from_nanos(111_250_000));
    assert_eq!(rtt.get(), rtt.smoothed());
}

#[test]
fn ack_delay_not_taken_below_minimum() {
    let mut rtt = RttEstimator::new();
    rtt.update(ms(0), ms(100));
    rtt.update(ms(10), ms(105));
    // 100 + 10 > 105: the sample is taken as it is
    assert_eq!(rtt.smoothed(), Duration::from_nanos((700_000_000 + 105_000_000) / 8));
    assert_eq!(rtt.var(), Duration::from_nanos((150_000_000 + 5_000_000) / 4));
}

#[test]
fn smaller_sample_lowers_minimum() {
    let mut rtt = RttEstimator::new();
    rtt.update(ms(0), ms(100));
    rtt.update(ms(0), ms(40));
    assert_eq!(rtt.min(), ms(40));
    rtt.update(ms(0), ms(80));
    assert_eq!(rtt.min(), ms(40));
}

#[test]
fn zero_minimum_is_replaced_by_next_sample() {
    let mut rtt = RttEstimator::new();
    rtt.update(ms(0), ms(0));
    assert_eq!(rtt.min(), ms(0));
    assert_eq!(rtt.smoothed(), ms(0));
    rtt.update(ms(0), ms(50));
    assert_eq!(rtt.min(), ms(50));
    // the estimate was zero, so this sample starts it afresh
    assert_eq!(rtt.smoothed(), ms(50));
    assert_eq!(rtt.var(), ms(25));
}

#[test]
fn steady_sample_keeps_estimate() {
    let mut rtt = RttEstimator::new();
    rtt.update(ms(0), ms(80));
    rtt.update(ms(0), ms(80));
    assert_eq!(rtt.smoothed(), ms(80));
    assert_eq!(rtt.var(), ms(30));
}

#[test]
fn conservative_is_larger_of_smoothed_and_latest() {
    let mut rtt = RttEstimator::new();
    rtt.update(ms(0), ms(100));
    rtt.update(ms(0), ms(20));
    assert_eq!(rtt.latest(), ms(20));
    assert_eq!(rtt.conservative(), rtt.smoothed());
    rtt.update(ms(0), ms(400));
    assert_eq!(rtt.conservative(), ms(400));
}

#[test]
fn pto_base_adds_four_variations() {
    let mut rtt = RttEstimator::new();
    rtt.update(ms(0), ms(100));
    assert_eq!(rtt.pto_base(), ms(300));
}

#[test]
fn pto_base_at_least_granularity() {
    let rtt = RttEstimator::new();
    assert_eq!(rtt.pto_base(), timer_granularity());
    assert_eq!(timer_granularity(), ms(1));
    let mut rtt = RttEstimator::new();
    rtt.update(ms(0), Duration::from_nanos(100));
    // 4 * 50 ns is below the granularity
    assert_eq!(rtt.pto_base(), Duration::from_nanos(1_000_100));
}

#[test]
fn ecn_counts_and_sticky_flag() {
    let mut rtt = RttEstimator::new();
    rtt.update_ecn(100, false);
    assert_eq!(rtt.is_ce(), Some(false));
    assert_eq!(rtt.ce_fraction(), Some((0, 100)));
    rtt.update_ecn(50, true);
    assert_eq!(rtt.is_ce(), Some(true));
    assert_eq!(rtt.ce_fraction(), Some((50, 150)));
    rtt.update_ecn(10, false);
    assert_eq!(rtt.is_ce(), Some(true));
    assert_eq!(rtt.ce_fraction(), Some((50, 160)));
}

#[test]
fn ecn_flag_hidden_until_delivery() {
    let mut rtt = RttEstimator::new();
    rtt.update_ecn(0, true);
    assert_eq!(rtt.is_ce(), None);
    rtt.update_ecn(1, false);
    assert_eq!(rtt.is_ce(), Some(true));
}

#[test]
fn ecn_and_rtt_updates_are_independent() {
    let mut a = RttEstimator::new();
    a.update(ms(3), ms(30));
    a.update_ecn(7, true);
    let mut b = RttEstimator::new();
    b.update_ecn(7, true);
    b.update(ms(3), ms(30));
    assert_eq!(a.smoothed(), b.smoothed());
    assert_eq!(a.var(), b.var());
    assert_eq!(a.min(), b.min());
    assert_eq!(a.ce_fraction(), b.ce_fraction());
}

#[test]
fn ce_report_over_deliveries_and_samples() {
    let mut rtt = RttEstimator::new();
    rtt.update_ecn(0, false);
    rtt.update(ms(1), ms(20));
    assert_eq!(rtt.is_ce(), None);
    rtt.update_ecn(0, true);
    assert_eq!(rtt.is_ce(), None);
    rtt.update_ecn(500, false);
    // the CE mark of the empty delivery counts once bytes were delivered
    assert_eq!(rtt.is_ce(), Some(true));
    rtt.update(ms(0), ms(25));
    rtt.update_ecn(10, false);
    assert_eq!(rtt.is_ce(), Some(true));
    assert_eq!(rtt.ce_fraction(), Some((0, 510)));
}
