//! Round-trip-time estimation for one network path (RFC 9002, section 5),
//! together with counters of ECN-marked delivery.
use vstd::prelude::*;
use crate::time::{Duration, MAX_NANOS};

verus! {

/// The timer granularity, in nanoseconds: one millisecond.
pub const TIMER_GRANULARITY_NANOS: u64 = 1_000_000;

/// The timer granularity: the shortest span a timer is trusted to resolve.
pub fn timer_granularity() -> (d: Duration)
    ensures
        d@ == TIMER_GRANULARITY_NANOS,
{
    Duration::from_nanos(TIMER_GRANULARITY_NANOS)
}

/// The larger of two naturals.
pub open spec fn nat_max(a: nat, b: nat) -> nat {
    if a >= b { a } else { b }
}

/// The distance between two naturals.
pub open spec fn nat_dist(a: nat, b: nat) -> nat {
    if a > b { (a - b) as nat } else { (b - a) as nat }
}

/// What an `RttEstimator` holds, spans in nanoseconds.
pub struct RttState {
    pub min_rtt: nat,
    pub latest_rtt: nat,
    pub smoothed_rtt: nat,
    pub rtt_var: nat,
    pub delivered: nat,
    pub delivered_ce: nat,
    pub is_ce: bool,
}

impl RttState {
    /// The state before any sample.
    pub open spec fn initial() -> RttState {
        RttState {
            min_rtt: 0,
            latest_rtt: 0,
            smoothed_rtt: 0,
            rtt_var: 0,
            delivered: 0,
            delivered_ce: 0,
            is_ce: false,
        }
    }

    /// The invariant every estimator keeps: no more CE-marked bytes than
    /// delivered bytes, a byte count that fits in `u64`, and a minimum that
    /// does not exceed the latest sample.
    pub open spec fn wf(self) -> bool {
        &&& self.delivered_ce <= self.delivered
        &&& self.delivered <= u64::MAX
        &&& self.min_rtt <= self.latest_rtt
    }

    /// The minimum after a sample `rtt`: the sample replaces a minimum that is
    /// zero (not yet known) or larger.
    pub open spec fn next_min(self, rtt: nat) -> nat {
        if self.min_rtt == 0 || rtt < self.min_rtt { rtt } else { self.min_rtt }
    }

    /// The sample with the acknowledgment delay taken off, where doing so does
    /// not bring it below the (updated) minimum.
    pub open spec fn adjusted_sample(self, ack_delay: nat, rtt: nat) -> nat {
        if self.next_min(rtt) + ack_delay <= rtt { (rtt - ack_delay) as nat } else { rtt }
    }

    /// Whether an update with these values stays within the longest span
    /// (beyond it the arithmetic on spans would overflow).
    pub open spec fn update_fits(self, ack_delay: nat, rtt: nat) -> bool {
        let adjusted = self.adjusted_sample(ack_delay, rtt);
        &&& self.next_min(rtt) + ack_delay <= MAX_NANOS
        &&& self.smoothed_rtt != 0 ==> 3 * self.rtt_var + nat_dist(self.smoothed_rtt, adjusted)
            <= MAX_NANOS
        &&& self.smoothed_rtt != 0 ==> 7 * self.smoothed_rtt + adjusted <= MAX_NANOS
    }

    /// The state after a sample `rtt` whose acknowledgment was delayed by
    /// `ack_delay`: the first sample (or the first after a zero estimate) sets
    /// the smoothed estimate and half of it as the variation; later samples
    /// move them by 1/8 and 1/4 of the way.
    pub open spec fn updated(self, ack_delay: nat, rtt: nat) -> RttState {
        let adjusted = self.adjusted_sample(ack_delay, rtt);
        RttState {
            min_rtt: self.next_min(rtt),
            latest_rtt: rtt,
            smoothed_rtt: if self.smoothed_rtt == 0 {
                adjusted
            } else {
                (7 * self.smoothed_rtt + adjusted) / 8
            },
            rtt_var: if self.smoothed_rtt == 0 {
                adjusted / 2
            } else {
                (3 * self.rtt_var + nat_dist(self.smoothed_rtt, adjusted)) / 4
            },
            ..self
        }
    }

    /// The state after `bytes` more bytes were delivered, CE-marked or not.
    pub open spec fn with_ecn(self, bytes: nat, is_ce: bool) -> RttState {
        RttState {
            delivered: self.delivered + bytes,
            delivered_ce: if is_ce { self.delivered_ce + bytes } else { self.delivered_ce },
            is_ce: self.is_ce || is_ce,
            ..self
        }
    }

    /// Whether a CE mark has been seen, once anything was delivered.
    pub open spec fn ce_seen(self) -> Option<bool> {
        if self.delivered == 0 { None } else { Some(self.is_ce) }
    }

    /// The larger of the smoothed estimate and the latest sample.
    pub open spec fn conservative(self) -> nat {
        nat_max(self.smoothed_rtt, self.latest_rtt)
    }

    /// The base of the probe timeout: the smoothed estimate plus four times the
    /// variation, but at least the timer granularity.
    pub open spec fn pto_base(self) -> nat {
        self.smoothed_rtt + nat_max(4 * self.rtt_var, TIMER_GRANULARITY_NANOS as nat)
    }
}

/// A sample never leaves the minimum above it, and the minimum only falls,
/// except while it is still unknown (zero); the sample becomes the latest.
pub proof fn lemma_update_min(s: RttState, ack_delay: nat, rtt: nat)
    ensures
        s.updated(ack_delay, rtt).min_rtt <= rtt,
        s.min_rtt != 0 ==> s.updated(ack_delay, rtt).min_rtt <= s.min_rtt,
        s.updated(ack_delay, rtt).latest_rtt == rtt,
{
}

/// The acknowledgment delay is taken off a sample only as far as the sample
/// stays at or above the minimum: the adjusted sample lies between the new
/// minimum and the sample itself.
pub proof fn lemma_adjusted_sample_bounds(s: RttState, ack_delay: nat, rtt: nat)
    ensures
        s.updated(ack_delay, rtt).min_rtt <= s.adjusted_sample(ack_delay, rtt) <= rtt,
        s.adjusted_sample(ack_delay, rtt) == rtt || s.adjusted_sample(ack_delay, rtt) + ack_delay
            == rtt,
{
}

/// The first sample, taken while the smoothed estimate is zero, becomes the
/// smoothed estimate, and half of it the variation.
pub proof fn lemma_first_sample(s: RttState, ack_delay: nat, rtt: nat)
    requires
        s.smoothed_rtt == 0,
    ensures
        s.updated(ack_delay, rtt).smoothed_rtt == s.adjusted_sample(ack_delay, rtt),
        s.updated(ack_delay, rtt).rtt_var == s.adjusted_sample(ack_delay, rtt) / 2,
{
}

/// Once there is an estimate, a new smoothed estimate lies between the old
/// one and the adjusted sample, and so does the new variation between the old
/// variation and the distance of the sample from the old estimate.
pub proof fn lemma_update_moves_between(s: RttState, ack_delay: nat, rtt: nat)
    requires
        s.smoothed_rtt != 0,
    ensures
        ({
            let a = s.adjusted_sample(ack_delay, rtt);
            let n = s.updated(ack_delay, rtt);
            let d = nat_dist(s.smoothed_rtt, a);
            &&& s.smoothed_rtt <= a ==> s.smoothed_rtt <= n.smoothed_rtt <= a
            &&& a <= s.smoothed_rtt ==> a <= n.smoothed_rtt <= s.smoothed_rtt
            &&& s.rtt_var <= d ==> s.rtt_var <= n.rtt_var <= d
            &&& d <= s.rtt_var ==> d <= n.rtt_var <= s.rtt_var
        }),
{
    let a = s.adjusted_sample(ack_delay, rtt);
    let x = s.smoothed_rtt;
    let v = s.rtt_var;
    let d = nat_dist(x, a);
    assert(x <= a ==> x <= (7 * x + a) / 8 <= a) by (nonlinear_arith);
    assert(a <= x ==> a <= (7 * x + a) / 8 <= x) by (nonlinear_arith);
    assert(v <= d ==> v <= (3 * v + d) / 4 <= d) by (nonlinear_arith);
    assert(d <= v ==> d <= (3 * v + d) / 4 <= v) by (nonlinear_arith);
}

/// A sample equal to the smoothed estimate, acknowledged without delay,
/// leaves the estimate where it is and does not raise the variation.
pub proof fn lemma_steady_sample(s: RttState, rtt: nat)
    requires
        s.smoothed_rtt != 0,
        rtt == s.smoothed_rtt,
    ensures
        s.updated(0, rtt).smoothed_rtt == s.smoothed_rtt,
        s.updated(0, rtt).rtt_var <= s.rtt_var,
{
    assert(s.adjusted_sample(0, rtt) == rtt);
    let v = s.rtt_var;
    assert((3 * v + 0) / 4 <= v) by (nonlinear_arith);
}

/// RTT samples and ECN accounting touch disjoint parts of the state: applying
/// them in either order gives the same state.
pub proof fn lemma_update_ecn_commute(
    s: RttState,
    ack_delay: nat,
    rtt: nat,
    bytes: nat,
    is_ce: bool,
)
    ensures
        s.updated(ack_delay, rtt).with_ecn(bytes, is_ce) == s.with_ecn(bytes, is_ce).updated(
            ack_delay,
            rtt,
        ),
{
}

/// Delivered byte counts only grow, the CE flag once set stays set, a CE-marked
/// delivery sets it, and after any delivered byte the flag is reported.
pub proof fn lemma_ecn_accounting(s: RttState, bytes: nat, is_ce: bool)
    ensures
        s.with_ecn(bytes, is_ce).delivered == s.delivered + bytes,
        s.with_ecn(bytes, is_ce).delivered_ce >= s.delivered_ce,
        s.is_ce ==> s.with_ecn(bytes, is_ce).is_ce,
        is_ce ==> s.with_ecn(bytes, is_ce).is_ce,
        s.with_ecn(bytes, is_ce).delivered > 0 ==> s.with_ecn(bytes, is_ce).ce_seen() == Some(
            s.with_ecn(bytes, is_ce).is_ce,
        ),
        s.delivered + bytes == 0 ==> s.with_ecn(bytes, is_ce).ce_seen() is None,
{
}

/// The conservative estimate is at least the smoothed estimate and the latest
/// sample, and the probe timeout base exceeds the smoothed estimate by at
/// least four variations and at least the timer granularity.
pub proof fn lemma_timeouts_cover_estimates(s: RttState)
    ensures
        s.conservative() >= s.smoothed_rtt,
        s.conservative() >= s.latest_rtt,
        s.conservative() == s.smoothed_rtt || s.conservative() == s.latest_rtt,
        s.pto_base() >= s.smoothed_rtt + 4 * s.rtt_var,
        s.pto_base() >= s.smoothed_rtt + TIMER_GRANULARITY_NANOS,
{
}

/// A sample update leaves the ECN counters and flag as they are.
pub proof fn lemma_update_keeps_ecn(s: RttState, ack_delay: nat, rtt: nat)
    ensures
        s.updated(ack_delay, rtt).delivered == s.delivered,
        s.updated(ack_delay, rtt).delivered_ce == s.delivered_ce,
        s.updated(ack_delay, rtt).is_ce == s.is_ce,
        s.updated(ack_delay, rtt).ce_seen() == s.ce_seen(),
{
}

/// Something an estimator takes in: an RTT sample (`update`) or delivered
/// bytes (`update_ecn`), spans in nanoseconds.
pub enum RttEvent {
    Sample { ack_delay: nat, rtt: nat },
    Delivery { bytes: nat, is_ce: bool },
}

/// The state after one event.
pub open spec fn apply_event(s: RttState, e: RttEvent) -> RttState {
    match e {
        RttEvent::Sample { ack_delay, rtt } => s.updated(ack_delay, rtt),
        RttEvent::Delivery { bytes, is_ce } => s.with_ecn(bytes, is_ce),
    }
}

/// The state after the events `es`, in order.
pub open spec fn after_events(s: RttState, es: Seq<RttEvent>) -> RttState
    decreases es.len(),
{
    if es.len() == 0 {
        s
    } else {
        apply_event(after_events(s, es.drop_last()), es.last())
    }
}

/// The bytes delivered over the events `es`.
pub open spec fn delivered_bytes(es: Seq<RttEvent>) -> nat
    decreases es.len(),
{
    if es.len() == 0 {
        0
    } else {
        delivered_bytes(es.drop_last()) + match es.last() {
            RttEvent::Delivery { bytes, .. } => bytes,
            RttEvent::Sample { .. } => 0,
        }
    }
}

/// Whether some delivery among the events `es` was CE-marked.
pub open spec fn some_ce(es: Seq<RttEvent>) -> bool {
    exists|i: int| 0 <= i < es.len() && (#[trigger] es[i]) matches RttEvent::Delivery { is_ce: true, .. }
}

/// Over any sequence of samples and deliveries, the delivered count grows by
/// the bytes delivered, and the CE flag is set exactly where it was set before
/// or some delivery was CE-marked. Samples leave both alone.
pub proof fn lemma_events_ecn_totals(s: RttState, es: Seq<RttEvent>)
    ensures
        after_events(s, es).delivered == s.delivered + delivered_bytes(es),
        after_events(s, es).is_ce == (s.is_ce || some_ce(es)),
    decreases es.len(),
{
    if es.len() > 0 {
        let init = es.drop_last();
        lemma_events_ecn_totals(s, init);
        if some_ce(es) && !some_ce(init) && !s.is_ce {
            let i = choose|i: int|
                0 <= i < es.len() && (#[trigger] es[i]) matches RttEvent::Delivery { is_ce: true, .. };
            if i < es.len() - 1 {
                assert(init[i] == es[i]);
            }
        }
        if some_ce(init) {
            let i = choose|i: int|
                0 <= i < init.len() && (#[trigger] init[i]) matches RttEvent::Delivery { is_ce: true, .. };
            assert(es[i] == init[i]);
        }
        if es.last() matches RttEvent::Delivery { is_ce: true, .. } {
            assert(es[es.len() - 1] == es.last());
        }
    }
}

/// From a new estimator, after any sequence of samples and deliveries,
/// `is_ce` reports nothing while no byte was delivered, and otherwise whether
/// some delivery was CE-marked (a CE-marked delivery of no bytes counts once
/// bytes have been delivered).
pub proof fn lemma_ce_report(es: Seq<RttEvent>)
    ensures
        after_events(RttState::initial(), es).ce_seen() == if delivered_bytes(es) == 0 {
            None
        } else {
            Some(some_ce(es))
        },
{
    lemma_events_ecn_totals(RttState::initial(), es);
}

/// A CE report, once given, stays: after any further samples and
/// deliveries `is_ce` still reports, and a reported CE mark is still reported.
pub proof fn lemma_ce_report_sticky(s: RttState, es: Seq<RttEvent>)
    ensures
        s.ce_seen() is Some ==> after_events(s, es).ce_seen() is Some,
        s.ce_seen() == Some(true) ==> after_events(s, es).ce_seen() == Some(true),
{
    lemma_events_ecn_totals(s, es);
}

/// Every sample and delivery keeps the estimator's invariant, so any sequence
/// of them from a new estimator does.
pub proof fn lemma_events_keep_wf(s: RttState, es: Seq<RttEvent>)
    requires
        s.wf(),
        s.delivered + delivered_bytes(es) <= u64::MAX,
    ensures
        after_events(s, es).wf(),
    decreases es.len(),
{
    if es.len() > 0 {
        let init = es.drop_last();
        lemma_events_ecn_totals(s, init);
        lemma_events_keep_wf(s, init);
    }
}

/// Once there is an estimate, each sample moves the smoothed RTT exactly one
/// eighth of the way to the adjusted sample (rounded down to a nanosecond) and
/// the variation one quarter of the way to the sample's distance from the old
/// estimate; the adjusted sample is the sample less the ack delay wherever
/// that keeps it at or above the new minimum. A sample at least 8 ns below the
/// estimate lowers it, one at least 8 ns above raises it.
pub proof fn lemma_smoothing_step(s: RttState, ack_delay: nat, rtt: nat)
    requires
        s.smoothed_rtt != 0,
    ensures
        ({
            let n = s.updated(ack_delay, rtt);
            let adj = if n.min_rtt + ack_delay <= rtt { (rtt - ack_delay) as nat } else { rtt };
            let dist = if s.smoothed_rtt > adj {
                (s.smoothed_rtt - adj) as nat
            } else {
                (adj - s.smoothed_rtt) as nat
            };
            &&& n.latest_rtt == rtt
            &&& 8 * n.smoothed_rtt <= 7 * s.smoothed_rtt + adj < 8 * n.smoothed_rtt + 8
            &&& 4 * n.rtt_var <= 3 * s.rtt_var + dist < 4 * n.rtt_var + 4
            &&& adj + 8 <= s.smoothed_rtt ==> n.smoothed_rtt < s.smoothed_rtt
            &&& s.smoothed_rtt + 8 <= adj ==> n.smoothed_rtt > s.smoothed_rtt
        }),
{
    let n = s.updated(ack_delay, rtt);
    let a = s.adjusted_sample(ack_delay, rtt);
    let x = s.smoothed_rtt;
    let v = s.rtt_var;
    let d = nat_dist(x, a);
    assert(8 * ((7 * x + a) / 8) <= 7 * x + a < 8 * ((7 * x + a) / 8) + 8) by (nonlinear_arith);
    assert(4 * ((3 * v + d) / 4) <= 3 * v + d < 4 * ((3 * v + d) / 4) + 4) by (nonlinear_arith);
}

/// The first sample (while the smoothed RTT is zero) becomes the smoothed RTT,
/// and half of it (rounded down) the variation.
pub proof fn lemma_first_sample_exact(s: RttState, ack_delay: nat, rtt: nat)
    requires
        s.smoothed_rtt == 0,
    ensures
        ({
            let n = s.updated(ack_delay, rtt);
            let adj = if n.min_rtt + ack_delay <= rtt { (rtt - ack_delay) as nat } else { rtt };
            &&& n.smoothed_rtt == adj
            &&& 2 * n.rtt_var <= adj < 2 * n.rtt_var + 2
        }),
{
    let a = s.adjusted_sample(ack_delay, rtt);
    assert(2 * (a / 2) <= a < 2 * (a / 2) + 2) by (nonlinear_arith);
}

/// The new minimum is the smaller of the sample and the old minimum, where
/// there was one (a zero minimum counts as none).
pub proof fn lemma_min_is_smallest_sample(s: RttState, ack_delay: nat, rtt: nat)
    ensures
        s.updated(ack_delay, rtt).min_rtt == rtt || s.updated(ack_delay, rtt).min_rtt == s.min_rtt,
        s.updated(ack_delay, rtt).min_rtt <= rtt,
        s.min_rtt != 0 ==> s.updated(ack_delay, rtt).min_rtt <= s.min_rtt,
        s.min_rtt == 0 ==> s.updated(ack_delay, rtt).min_rtt == rtt,
{
}

/// The probe timeout base is the smoothed RTT plus the larger of four
/// variations and the timer granularity; it does not depend on the latest
/// sample.
pub proof fn lemma_pto_base_exact(s: RttState, latest: nat)
    ensures
        s.pto_base() == s.smoothed_rtt + 4 * s.rtt_var || s.pto_base() == s.smoothed_rtt
            + TIMER_GRANULARITY_NANOS,
        s.pto_base() >= s.smoothed_rtt + 4 * s.rtt_var,
        s.pto_base() >= s.smoothed_rtt + TIMER_GRANULARITY_NANOS,
        (RttState { latest_rtt: latest, ..s }).pto_base() == s.pto_base(),
{
}

/// RTT estimation for a particular network path
#[derive(Clone, Copy, Debug)]
pub struct RttEstimator {
    min_rtt: Duration,
    latest_rtt: Duration,
    smoothed_rtt: Duration,
    rtt_var: Duration,
    delivered: u64,
    delivered_ce: u64,
    is_ce: bool,
}

impl View for RttEstimator {
    type V = RttState;

    closed spec fn view(&self) -> RttState {
        RttState {
            min_rtt: self.min_rtt@,
            latest_rtt: self.latest_rtt@,
            smoothed_rtt: self.smoothed_rtt@,
            rtt_var: self.rtt_var@,
            delivered: self.delivered as nat,
            delivered_ce: self.delivered_ce as nat,
            is_ce: self.is_ce,
        }
    }
}

impl RttEstimator {
    /// The estimator's invariant.
    pub open spec fn wf(&self) -> bool {
        self@.wf()
    }

    /// An estimator that has seen no sample and no delivery.
    pub fn new() -> (r: Self)
        ensures
            r@ == RttState::initial(),
            r.wf(),
    {
        Self {
            min_rtt: Duration::from_secs(0),
            latest_rtt: Duration::from_secs(0),
            smoothed_rtt: Duration::from_secs(0),
            rtt_var: Duration::from_secs(0),
            delivered: 0,
            delivered_ce: 0,
            is_ce: false,
        }
    }

    /// Whether a CE mark was seen; `None` while nothing was delivered.
    pub fn is_ce(&self) -> (r: Option<bool>)
        ensures
            r == self@.ce_seen(),
    {
        if self.delivered == 0 {
            None
        } else {
            Some(self.is_ce)
        }
    }

    /// Account for `bytes` delivered bytes, CE-marked if `is_ce`.
    pub fn update_ecn(&mut self, bytes: u64, is_ce: bool)
        requires
            old(self).wf(),
            old(self)@.delivered + bytes <= u64::MAX,
        ensures
            final(self).wf(),
            final(self)@ == old(self)@.with_ecn(bytes as nat, is_ce),
    {
        self.delivered += bytes;
        if is_ce {
            self.delivered_ce += bytes;
            self.is_ce = true;
        }
    }

    /// The CE-marked and the delivered byte counts, whose quotient is the CE
    /// marking ratio; `None` while nothing was delivered.
    pub fn ce_fraction(&self) -> (r: Option<(u64, u64)>)
        ensures
            r == (if self@.delivered == 0 {
                None
            } else {
                Some((self@.delivered_ce as u64, self@.delivered as u64))
            }),
    {
        if self.delivered == 0 {
            None
        } else {
            Some((self.delivered_ce, self.delivered))
        }
    }

    /// The smallest sample seen (zero before the first).
    pub fn min(&self) -> (d: Duration)
        ensures
            d@ == self@.min_rtt,
    {
        self.min_rtt
    }

    /// The latest sample.
    pub fn latest(&self) -> (d: Duration)
        ensures
            d@ == self@.latest_rtt,
    {
        self.latest_rtt
    }

    /// The smoothed estimate.
    pub fn smoothed(&self) -> (d: Duration)
        ensures
            d@ == self@.smoothed_rtt,
    {
        self.smoothed_rtt
    }

    /// The estimated variation of the samples.
    pub fn var(&self) -> (d: Duration)
        ensures
            d@ == self@.rtt_var,
    {
        self.rtt_var
    }

    /// The current estimate: the smoothed one.
    pub fn get(&self) -> (d: Duration)
        ensures
            d@ == self@.smoothed_rtt,
    {
        self.smoothed_rtt
    }

    /// The larger of the smoothed estimate and the latest sample.
    pub fn conservative(&self) -> (d: Duration)
        ensures
            d@ == self@.conservative(),
    {
        self.smoothed_rtt.max(self.latest_rtt)
    }

    /// The base of the probe timeout.
    pub fn pto_base(&self) -> (d: Duration)
        requires
            self@.pto_base() <= MAX_NANOS,
        ensures
            d@ == self@.pto_base(),
    {
        let four_var = self.rtt_var.times(4);
        self.smoothed_rtt.plus(four_var.max(timer_granularity()))
    }

    /// Take in a sample `rtt` whose acknowledgment was delayed by `ack_delay`.
    pub fn update(&mut self, ack_delay: Duration, rtt: Duration)
        requires
            old(self).wf(),
            old(self)@.update_fits(ack_delay@, rtt@),
        ensures
            final(self).wf(),
            final(self)@ == old(self)@.updated(ack_delay@, rtt@),
    {
        self.latest_rtt = rtt;
        if self.min_rtt.is_zero() || rtt.lt(&self.min_rtt) {
            self.min_rtt = rtt;
        }
        let adjusted_rtt = if self.min_rtt.plus(ack_delay).le(&rtt) {
            rtt.minus(ack_delay)
        } else {
            rtt
        };
        if self.smoothed_rtt.is_zero() {
            self.smoothed_rtt = adjusted_rtt;
            self.rtt_var = adjusted_rtt.divided_by(2);
        } else {
            let delta = if adjusted_rtt.lt(&self.smoothed_rtt) {
                self.smoothed_rtt.minus(adjusted_rtt)
            } else {
                adjusted_rtt.minus(self.smoothed_rtt)
            };
            self.rtt_var = self.rtt_var.times(3).plus(delta).divided_by(4);
            self.smoothed_rtt = self.smoothed_rtt.times(7).plus(adjusted_rtt).divided_by(8);
        }
    }
}

} // verus!
