use quinn_proto::paths::{InFlight, PathData, PathResponses, RemoteAddr, SentPacket, SpaceId};
use quinn_proto::rtt::RttEstimator;
use quinn_proto::time::{Duration, Instant};

fn v4(last: u32, port: u16) -> RemoteAddr {
    RemoteAddr::V4 { ipv4: 0x7f00_0000 | last, port }
}

fn packet(size: u16, ack_eliciting: bool) -> SentPacket {
    SentPacket { size, ack_eliciting }
}

#[test]
fn in_flight_insert_and_remove() {
    let mut f = InFlight::new();
    assert_eq!(f, InFlight { bytes: 0, ack_eliciting: 0 });
    f.insert(&packet(1200, true));
    f.insert(&packet(40, false));
    assert_eq!(f, InFlight { bytes: 1240, ack_eliciting: 1 });
    f.remove(&packet(1200, true));
    assert_eq!(f, InFlight { bytes: 40, ack_eliciting: 0 });
    f.remove(&packet(40, false));
    assert_eq!(f, InFlight::new());
}

#[test]
fn path_responses_on_and_off_path() {
    let a = v4(1, 4433);
    let b = v4(2, 4433);
    let mut r = PathResponses::default();
    assert!(r.is_empty());
    r.push(1, 11, a);
    r.push(2, 22, b);
    // the last one goes to b: a's pop does not take it
    assert_eq!(r.pop_on_path(a), None);
    assert_eq!(r.pop_off_path(b), None);
    assert_eq!(r.pop_off_path(a), Some((22, b)));
    assert_eq!(r.pop_off_path(a), None);
    assert_eq!(r.pop_on_path(a), Some(11));
    assert!(r.is_empty());
    assert_eq!(r.pop_on_path(a), None);
    assert_eq!(r.pop_off_path(a), None);
}

#[test]
fn path_response_replaced_by_newer_challenge_only() {
    let a = v4(1, 4433);
    let mut r = PathResponses::new();
    r.push(5, 50, a);
    r.push(4, 40, a); // older packet: ignored
    r.push(5, 55, a); // same packet: replaces
    assert_eq!(r.pop_on_path(a), Some(55));
    assert!(r.is_empty());
    r.push(5, 50, a);
    r.push(9, 90, a);
    assert_eq!(r.pop_on_path(a), Some(90));
    assert!(r.is_empty());
}

#[test]
fn path_responses_limited_to_sixteen_peers() {
    let mut r = PathResponses::new();
    for i in 0..16u32 {
        r.push(i as u64, i as u64, v4(i, 1000));
    }
    r.push(100, 100, v4(200, 1000)); // dropped: the queue is full
    assert_eq!(r.pop_on_path(v4(200, 1000)), None);
    // a known peer still gets its response replaced
    r.push(100, 777, v4(15, 1000));
    assert_eq!(r.pop_on_path(v4(15, 1000)), Some(777));
    let mut n = 0;
    while r.pop_off_path(v4(200, 1000)).is_some() {
        n += 1;
    }
    assert_eq!(n, 15);
    assert!(r.is_empty());
}

#[test]
fn remote_addr_equality_covers_all_fields() {
    let a = RemoteAddr::V6 { ipv6: 1, port: 443, flowinfo: 0, scope_id: 0 };
    let b = RemoteAddr::V6 { ipv6: 1, port: 443, flowinfo: 0, scope_id: 3 };
    let mut r = PathResponses::new();
    r.push(1, 10, a);
    assert_eq!(r.pop_on_path(b), None);
    assert_eq!(r.pop_off_path(b), Some((10, a)));
}

fn fresh_path() -> PathData {
    PathData::new(
        v4(9, 443),
        Duration::from_millis(333),
        12_000,
        1200,
        Instant::from_origin(Duration::zero()),
    )
}

#[test]
fn new_path_is_fresh() {
    let p = fresh_path();
    assert_eq!(p.remote, v4(9, 443));
    assert!(p.sending_ecn);
    assert_eq!(p.challenge, None);
    assert!(!p.challenge_pending);
    assert!(!p.validated);
    assert_eq!(p.total_sent, 0);
    assert_eq!(p.total_recvd, 0);
    assert_eq!(p.in_flight, InFlight::new());
    assert_eq!(p.first_packet, None);
    assert_eq!(p.first_packet_after_rtt_sample, None);
    assert_eq!(p.rtt.smoothed(), Duration::zero());
    assert!(p.anti_amplification_blocked(1));
}

#[test]
fn anti_amplification_limit() {
    let mut p = fresh_path();
    p.total_recvd = 100;
    p.total_sent = 250;
    assert!(!p.anti_amplification_blocked(50));
    assert!(p.anti_amplification_blocked(51));
    p.validated = true;
    assert!(!p.anti_amplification_blocked(10_000));
}

#[test]
fn sent_records_first_packet_and_in_flight() {
    let mut p = fresh_path();
    p.sent(7, packet(1200, true), 0);
    assert_eq!(p.first_packet, Some(7));
    assert_eq!(p.in_flight, InFlight { bytes: 1200, ack_eliciting: 1 });
    p.sent(8, packet(1000, false), 300);
    assert_eq!(p.first_packet, Some(7));
    assert_eq!(p.in_flight, InFlight { bytes: 1900, ack_eliciting: 1 });
}

#[test]
fn remove_in_flight_refuses_earlier_packets() {
    let mut p = fresh_path();
    assert!(!p.remove_in_flight(3, &packet(1200, true)));
    p.sent(7, packet(1200, true), 0);
    assert!(!p.remove_in_flight(6, &packet(1200, true)));
    assert_eq!(p.in_flight, InFlight { bytes: 1200, ack_eliciting: 1 });
    assert!(p.remove_in_flight(7, &packet(1200, true)));
    assert_eq!(p.in_flight, InFlight::new());
}

#[test]
fn from_previous_keeps_rtt_only() {
    let mut prev = fresh_path();
    prev.rtt.update(Duration::zero(), Duration::from_millis(40));
    prev.validated = true;
    prev.total_sent = 5000;
    prev.sent(1, packet(100, true), 0);
    prev.first_packet_after_rtt_sample = Some((SpaceId::Data, 12));
    let now = Instant::from_origin(Duration::from_millis(3));
    let p = PathData::from_previous(v4(10, 443), &prev, 20_000, 1200, now);
    assert_eq!(p.remote, v4(10, 443));
    assert_eq!(p.rtt.smoothed(), Duration::from_millis(40));
    assert_eq!(p.rtt.min(), Duration::from_millis(40));
    assert!(!p.validated);
    assert_eq!(p.total_sent, 0);
    assert_eq!(p.first_packet, None);
    assert_eq!(p.first_packet_after_rtt_sample, Some((SpaceId::Data, 12)));
    assert_eq!(p.in_flight, InFlight::new());
}

#[test]
fn reset_clears_rtt_estimate() {
    let mut p = fresh_path();
    p.rtt.update(Duration::zero(), Duration::from_millis(40));
    p.total_sent = 10;
    p.reset();
    assert_eq!(p.rtt.smoothed(), RttEstimator::new().smoothed());
    assert_eq!(p.rtt.min(), Duration::zero());
    assert_eq!(p.total_sent, 10);
}

#[test]
fn in_flight_counters_track_packets_in_flight() {
    let mut f = InFlight::new();
    let a = packet(1200, true);
    let b = packet(30, false);
    let c = packet(900, true);
    f.insert(&a);
    f.insert(&b);
    f.insert(&c);
    f.remove(&b);
    assert_eq!(f, InFlight { bytes: 2100, ack_eliciting: 2 });
    f.remove(&a);
    assert_eq!(f, InFlight { bytes: 900, ack_eliciting: 1 });
    assert!(f.ack_eliciting == 0 || f.bytes != 0);
}
