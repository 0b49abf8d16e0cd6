//! Pacing of packet transmissions.
use vstd::prelude::*;
use crate::time::{Duration, Instant, MAX_NANOS};

verus! {

/// The burst interval, in nanoseconds: 2 ms.
///
/// The capacity will we refilled in 4/5 of that time.
/// 2ms is chosen here since framework timers might have 1ms precision.
/// If kernel-level pacing is supported later a higher time here might be
/// more applicable.
pub const BURST_INTERVAL_NANOS: u128 = 2_000_000;

/// Allows some usage of GSO, and doesn't slow down the handshake.
pub const MIN_BURST_SIZE: u64 = 10;

/// Creating 256 packets took 1ms in a benchmark, so larger bursts don't make sense.
pub const MAX_BURST_SIZE: u64 = 256;

/// `2^64`: the modulus of a cast to `u64`.
pub open spec fn u64_modulus() -> nat {
    0x1_0000_0000_0000_0000
}

/// `x` held between `lo` and `hi` (for `lo <= hi`).
pub open spec fn nat_clamp(x: nat, lo: nat, hi: nat) -> nat {
    if x < lo { lo } else if x > hi { hi } else { x }
}

/// The smaller of two naturals.
pub open spec fn nat_min(a: nat, b: nat) -> nat {
    if a <= b { a } else { b }
}

/// `a + b`, saturated at `u64::MAX`.
pub open spec fn u64_saturating_add(a: nat, b: nat) -> nat {
    nat_min(a + b, u64::MAX as nat)
}

/// `Ord::clamp` on `u64`, which std documents as: the upper bound where the
/// value is greater than it, the lower bound where the value is less than it,
/// the value otherwise. It panics where the lower bound exceeds the upper one,
/// which the `requires` that vstd gives `Ord::clamp` rules out.
pub assume_specification[ <u64 as Ord>::clamp ](x: u64, lo: u64, hi: u64) -> (r: u64)
    ensures
        r == nat_clamp(x as nat, lo as nat, hi as nat),
;

/// The pacer capacity for a window of `window` bytes, an RTT of `rtt_nanos`
/// and an MTU of `mtu`: the part of the window sent in one burst interval
/// (the quotient taken modulo `2^64`, as a cast to `u64` does), held between
/// `MIN_BURST_SIZE` and `MAX_BURST_SIZE` packets of `mtu` bytes.
pub open spec fn capacity_for(rtt_nanos: nat, window: nat, mtu: nat) -> nat {
    let rtt = if rtt_nanos >= 1 { rtt_nanos } else { 1 };
    let raw = ((window * (BURST_INTERVAL_NANOS as nat)) / rtt) % u64_modulus();
    nat_clamp(raw, (MIN_BURST_SIZE as nat) * mtu, (MAX_BURST_SIZE as nat) * mtu)
}

/// Calculates a pacer capacity for a certain window and RTT
///
/// The goal is to emit a burst (of size `capacity`) in timer intervals
/// which compromise between
/// - ideally distributing datagrams over time
/// - constantly waking up the connection to produce additional datagrams
///
/// Too short burst intervals means we will never meet them since the timer
/// accuracy in user-space is not high enough. If we miss the interval by more
/// than 25%, we will lose that part of the congestion window since no additional
/// tokens for the extra-elapsed time can be stored.
///
/// Too long burst intervals make pacing less effective.
pub fn optimal_capacity(smoothed_rtt: Duration, window: u64, mtu: u16) -> (c: u64)
    ensures
        c == capacity_for(smoothed_rtt@, window as nat, mtu as nat),
{
    let rtt = smoothed_rtt.as_nanos().max(1);
    let quotient = (window as u128 * BURST_INTERVAL_NANOS) / rtt;
    let capacity = quotient as u64;
    assert(capacity == quotient % 0x1_0000_0000_0000_0000) by (bit_vector)
        requires
            capacity == quotient as u64,
    ;
    // Small bursts are less efficient (no GSO), could increase latency and don't effectively
    // use the channel's buffer capacity. Large bursts might block the connection on sending.
    capacity.clamp(MIN_BURST_SIZE * mtu as u64, MAX_BURST_SIZE * mtu as u64)
}

/// What a `Pacer` holds: token counts in bytes, the last refill time in
/// nanoseconds since the origin.
pub struct PacerState {
    pub capacity: nat,
    pub last_window: nat,
    pub last_mtu: nat,
    pub tokens: nat,
    pub prev: nat,
}

impl PacerState {
    /// A pacer made for an RTT of `smoothed_rtt`, a window of `window` bytes
    /// and an MTU of `mtu` at `now`: its bucket is full.
    pub open spec fn initial(smoothed_rtt: nat, window: nat, mtu: nat, now: nat) -> PacerState {
        PacerState {
            capacity: capacity_for(smoothed_rtt, window, mtu),
            last_window: window,
            last_mtu: mtu,
            tokens: capacity_for(smoothed_rtt, window, mtu),
            prev: now,
        }
    }

    /// The pacer's invariant: the bucket never holds more than its capacity.
    pub open spec fn wf(self) -> bool {
        self.tokens <= self.capacity
    }

    /// The state after `packet_length` bytes were sent.
    pub open spec fn after_transmit(self, packet_length: nat) -> PacerState {
        PacerState {
            tokens: if self.tokens >= packet_length {
                (self.tokens - packet_length) as nat
            } else {
                0
            },
            ..self
        }
    }

    /// Whether `delay` paces at all: with a zero RTT, window or rate it lets
    /// everything through at once.
    pub open spec fn pacing_enabled(smoothed_rtt: nat, window: nat, pacing_rate: nat) -> bool {
        smoothed_rtt != 0 && window != 0 && pacing_rate != 0
    }

    /// The state once a window of `window` bytes was seen: a changed window
    /// re-derives the capacity for it (with the RTT `smoothed_rtt` and the MTU
    /// `mtu`), holds the bucket to that capacity and records the window.
    pub open spec fn with_window(self, smoothed_rtt: nat, window: nat, mtu: nat) -> PacerState {
        if window != self.last_window {
            let capacity = capacity_for(smoothed_rtt, window, mtu);
            PacerState {
                capacity,
                tokens: nat_min(capacity, self.tokens),
                last_window: window,
                ..self
            }
        } else {
            self
        }
    }

    /// The time elapsed from the last refill to `now`, or zero for a `now`
    /// before it.
    pub open spec fn elapsed(self, now: nat) -> nat {
        if self.prev <= now { (now - self.prev) as nat } else { 0 }
    }

    /// The tokens that `pacing_rate` bytes per second bring in over the
    /// elapsed time (modulo `2^64`, as a cast to `u64` does).
    pub open spec fn refill(self, now: nat, pacing_rate: nat) -> nat {
        ((pacing_rate * self.elapsed(now)) / 1_000_000_000) % u64_modulus()
    }

    /// The state after refilling the bucket up to `now`.
    pub open spec fn refilled(self, now: nat, pacing_rate: nat) -> PacerState {
        PacerState {
            tokens: nat_min(
                u64_saturating_add(self.tokens, self.refill(now, pacing_rate)),
                self.capacity,
            ),
            prev: now,
            ..self
        }
    }

    /// The time to wait, in nanoseconds, until `pacing_rate` bytes per second
    /// bring in the tokens missing for `bytes_to_send`.
    pub open spec fn wait_nanos(self, bytes_to_send: nat, pacing_rate: nat) -> nat {
        (((bytes_to_send - self.tokens) as nat) * 1_000_000_000) / pacing_rate
    }

    /// The state after `delay` with these arguments.
    pub open spec fn after_delay(
        self,
        smoothed_rtt: nat,
        bytes_to_send: nat,
        mtu: nat,
        window: nat,
        now: nat,
        pacing_rate: nat,
    ) -> PacerState {
        let w = self.with_window(smoothed_rtt, window, mtu);
        if !Self::pacing_enabled(smoothed_rtt, window, pacing_rate) {
            self
        } else if w.tokens >= bytes_to_send {
            w
        } else {
            w.refilled(now, pacing_rate)
        }
    }

    /// What `delay` returns for these arguments: nothing where the packet may
    /// go now, else the time at which enough tokens will have come in.
    pub open spec fn delay_result(
        self,
        smoothed_rtt: nat,
        bytes_to_send: nat,
        mtu: nat,
        window: nat,
        now: nat,
        pacing_rate: nat,
    ) -> Option<nat> {
        let w = self.with_window(smoothed_rtt, window, mtu);
        let r = w.refilled(now, pacing_rate);
        if !Self::pacing_enabled(smoothed_rtt, window, pacing_rate) || w.tokens >= bytes_to_send
            || bytes_to_send <= r.tokens {
            None
        } else {
            Some(now + r.wait_nanos(bytes_to_send, pacing_rate))
        }
    }

    /// Whether `delay` with these arguments stays within the integer ranges
    /// that its arithmetic needs (beyond them the arithmetic on `u64`, `u128` or points in
    /// time would overflow).
    pub open spec fn delay_fits(
        self,
        smoothed_rtt: nat,
        bytes_to_send: nat,
        mtu: nat,
        window: nat,
        now: nat,
        pacing_rate: nat,
    ) -> bool {
        let w = self.with_window(smoothed_rtt, window, mtu);
        let r = w.refilled(now, pacing_rate);
        Self::pacing_enabled(smoothed_rtt, window, pacing_rate) && w.tokens < bytes_to_send ==> {
            &&& pacing_rate * w.elapsed(now) <= u128::MAX
            &&& r.tokens < bytes_to_send ==> {
                &&& (bytes_to_send - r.tokens) * 1_000_000_000 <= u64::MAX
                &&& now + r.wait_nanos(bytes_to_send, pacing_rate) <= MAX_NANOS
            }
        }
    }
}

/// The capacity is always between `MIN_BURST_SIZE` and `MAX_BURST_SIZE`
/// packets of the MTU.
pub proof fn lemma_capacity_bounds(rtt_nanos: nat, window: nat, mtu: nat)
    ensures
        MIN_BURST_SIZE * mtu <= capacity_for(rtt_nanos, window, mtu) <= MAX_BURST_SIZE * mtu,
{
}

/// Where the quotient does not wrap, the capacity is the share of the window
/// that one burst interval carries at the RTT (counting a zero RTT as 1 ns),
/// rounded down, unless that share lies outside the burst bounds, in which
/// case it is the bound it crosses.
pub proof fn lemma_capacity_is_window_share(rtt_nanos: nat, window: nat, mtu: nat)
    requires
        (window * (BURST_INTERVAL_NANOS as nat)) / (if rtt_nanos >= 1 {
            rtt_nanos
        } else {
            1nat
        }) < u64_modulus(),
    ensures
        ({
            let rtt: nat = if rtt_nanos >= 1 { rtt_nanos } else { 1 };
            let c = capacity_for(rtt_nanos, window, mtu);
            &&& MIN_BURST_SIZE * mtu < c < MAX_BURST_SIZE * mtu ==> c * rtt <= window
                * BURST_INTERVAL_NANOS < (c + 1) * rtt
            &&& mtu > 0 && c == MIN_BURST_SIZE * mtu ==> window * BURST_INTERVAL_NANOS < (c + 1)
                * rtt
            &&& mtu > 0 && c == MAX_BURST_SIZE * mtu ==> c * rtt <= window * BURST_INTERVAL_NANOS
        }),
{
    let rtt: nat = if rtt_nanos >= 1 { rtt_nanos } else { 1 };
    let w = window * (BURST_INTERVAL_NANOS as nat);
    let q = w / rtt;
    assert(q % u64_modulus() == q) by (nonlinear_arith)
        requires
            q < u64_modulus(),
    ;
    assert(q * rtt <= w < (q + 1) * rtt) by (nonlinear_arith)
        requires
            q == w / rtt,
            rtt >= 1,
    ;
    let c = capacity_for(rtt_nanos, window, mtu);
    assert(c == nat_clamp(q, (MIN_BURST_SIZE as nat) * mtu, (MAX_BURST_SIZE as nat) * mtu));
    assert(MIN_BURST_SIZE * mtu < c < MAX_BURST_SIZE * mtu ==> c == q);
    assert(mtu > 0 && c == MIN_BURST_SIZE * mtu ==> q <= c);
    assert(mtu > 0 && c == MAX_BURST_SIZE * mtu ==> c <= q);
    assert(c <= q ==> c * rtt <= q * rtt) by (nonlinear_arith);
    assert(q <= c ==> (q + 1) * rtt <= (c + 1) * rtt) by (nonlinear_arith);
}

/// A new pacer starts with a full bucket.
pub proof fn lemma_new_pacer_full(smoothed_rtt: nat, window: nat, mtu: nat, now: nat)
    ensures
        PacerState::initial(smoothed_rtt, window, mtu, now).tokens == PacerState::initial(
            smoothed_rtt,
            window,
            mtu,
            now,
        ).capacity,
        PacerState::initial(smoothed_rtt, window, mtu, now).capacity == capacity_for(
            smoothed_rtt,
            window,
            mtu,
        ),
        PacerState::initial(smoothed_rtt, window, mtu, now).prev == now,
        PacerState::initial(smoothed_rtt, window, mtu, now).last_window == window,
{
}

/// Sending never adds tokens, and sending no more than the bucket holds takes
/// exactly the packet's length out of it; nothing else changes.
pub proof fn lemma_transmit_takes_tokens(s: PacerState, packet_length: nat)
    ensures
        s.after_transmit(packet_length).tokens <= s.tokens,
        packet_length <= s.tokens ==> s.after_transmit(packet_length).tokens + packet_length
            == s.tokens,
        s.after_transmit(packet_length).capacity == s.capacity,
        s.wf() ==> s.after_transmit(packet_length).wf(),
{
}

/// `delay` keeps the bucket within its capacity and the recorded MTU as it
/// is; it re-derives the capacity for a changed window (with the RTT and MTU
/// it is given) and keeps it otherwise.
pub proof fn lemma_delay_capacity(
    s: PacerState,
    smoothed_rtt: nat,
    bytes_to_send: nat,
    mtu: nat,
    window: nat,
    now: nat,
    pacing_rate: nat,
)
    requires
        s.wf(),
    ensures
        s.after_delay(smoothed_rtt, bytes_to_send, mtu, window, now, pacing_rate).wf(),
        s.after_delay(smoothed_rtt, bytes_to_send, mtu, window, now, pacing_rate).capacity == if PacerState::pacing_enabled(smoothed_rtt, window, pacing_rate) && window != s.last_window {
            capacity_for(smoothed_rtt, window, mtu)
        } else {
            s.capacity
        },
        PacerState::pacing_enabled(smoothed_rtt, window, pacing_rate) ==> s.after_delay(
            smoothed_rtt,
            bytes_to_send,
            mtu,
            window,
            now,
            pacing_rate,
        ).last_window == window,
        s.after_delay(smoothed_rtt, bytes_to_send, mtu, window, now, pacing_rate).last_mtu
            == s.last_mtu,
{
}

/// With a zero RTT, window or pacing rate the pacer lets the packet go and
/// does not change.
pub proof fn lemma_disabled_pacing_passes(
    s: PacerState,
    smoothed_rtt: nat,
    bytes_to_send: nat,
    mtu: nat,
    window: nat,
    now: nat,
    pacing_rate: nat,
)
    requires
        !PacerState::pacing_enabled(smoothed_rtt, window, pacing_rate),
    ensures
        s.delay_result(smoothed_rtt, bytes_to_send, mtu, window, now, pacing_rate) is None,
        s.after_delay(smoothed_rtt, bytes_to_send, mtu, window, now, pacing_rate) == s,
{
}

/// A packet is held back only when the bucket, refilled up to `now`, holds
/// fewer tokens than it needs; the time it is held until is no earlier than
/// `now`, and the refill time becomes `now`.
pub proof fn lemma_delay_holds_back_only_short_bucket(
    s: PacerState,
    smoothed_rtt: nat,
    bytes_to_send: nat,
    mtu: nat,
    window: nat,
    now: nat,
    pacing_rate: nat,
)
    ensures
        s.delay_result(smoothed_rtt, bytes_to_send, mtu, window, now, pacing_rate) is Some ==> {
            let after = s.after_delay(smoothed_rtt, bytes_to_send, mtu, window, now, pacing_rate);
            &&& PacerState::pacing_enabled(smoothed_rtt, window, pacing_rate)
            &&& after.tokens < bytes_to_send
            &&& after.prev == now
            &&& s.delay_result(smoothed_rtt, bytes_to_send, mtu, window, now, pacing_rate)->0 >= now
        },
        s.delay_result(smoothed_rtt, bytes_to_send, mtu, window, now, pacing_rate) is None ==> {
            ||| !PacerState::pacing_enabled(smoothed_rtt, window, pacing_rate)
            ||| s.after_delay(smoothed_rtt, bytes_to_send, mtu, window, now, pacing_rate).tokens
                >= bytes_to_send
        },
{
}

/// A bucket with enough tokens lets the packet go at once, whatever the time.
pub proof fn lemma_full_bucket_passes(
    s: PacerState,
    smoothed_rtt: nat,
    bytes_to_send: nat,
    mtu: nat,
    now: nat,
    pacing_rate: nat,
)
    requires
        bytes_to_send <= s.tokens,
    ensures
        s.delay_result(smoothed_rtt, bytes_to_send, mtu, s.last_window, now, pacing_rate) is None,
        s.after_delay(smoothed_rtt, bytes_to_send, mtu, s.last_window, now, pacing_rate) == s,
{
}

/// Where the refill does not wrap around `2^64`, the later the time of a
/// refill the more tokens it leaves in the bucket.
pub proof fn lemma_refill_monotone(s: PacerState, now1: nat, now2: nat, pacing_rate: nat)
    requires
        now1 <= now2,
        (pacing_rate * s.elapsed(now2)) / 1_000_000_000 < u64_modulus(),
    ensures
        s.refilled(now1, pacing_rate).tokens <= s.refilled(now2, pacing_rate).tokens,
{
    let e1 = s.elapsed(now1);
    let e2 = s.elapsed(now2);
    assert(e1 <= e2);
    assert(pacing_rate * e1 <= pacing_rate * e2) by (nonlinear_arith)
        requires
            e1 <= e2,
    ;
    assert((pacing_rate * e1) / 1_000_000_000 <= (pacing_rate * e2) / 1_000_000_000)
        by (nonlinear_arith)
        requires
            pacing_rate * e1 <= pacing_rate * e2,
    ;
}

/// Tokens come in only with time that has passed since the last refill: a
/// query at or before the time of the last refill adds none, so a bucket short
/// of tokens waits the whole time the pacing rate needs for the missing bytes.
pub proof fn lemma_no_time_no_tokens(
    s: PacerState,
    smoothed_rtt: nat,
    bytes_to_send: nat,
    mtu: nat,
    now: nat,
    pacing_rate: nat,
)
    requires
        s.wf(),
        PacerState::pacing_enabled(smoothed_rtt, s.last_window, pacing_rate),
        s.capacity <= u64::MAX,
        s.tokens < bytes_to_send,
        now <= s.prev,
    ensures
        s.after_delay(smoothed_rtt, bytes_to_send, mtu, s.last_window, now, pacing_rate).tokens
            == s.tokens,
        s.after_delay(smoothed_rtt, bytes_to_send, mtu, s.last_window, now, pacing_rate).prev
            == now,
        s.delay_result(smoothed_rtt, bytes_to_send, mtu, s.last_window, now, pacing_rate) == Some(
            now + ((bytes_to_send - s.tokens) * 1_000_000_000) as nat / pacing_rate,
        ),
{
    assert(s.elapsed(now) == 0);
    assert(pacing_rate * 0 == 0) by (nonlinear_arith);
    assert(s.refill(now, pacing_rate) == 0);
}

/// A refill brings in no more than `pacing_rate` bytes per second of the time
/// elapsed since the last refill, and exactly that many (rounded down) where
/// the bucket's capacity does not cut it off.
pub proof fn lemma_refill_follows_elapsed_time(
    s: PacerState,
    smoothed_rtt: nat,
    bytes_to_send: nat,
    mtu: nat,
    window: nat,
    now: nat,
    pacing_rate: nat,
)
    requires
        s.wf(),
        s.capacity <= u64::MAX,
    ensures
        ({
            let after = s.after_delay(smoothed_rtt, bytes_to_send, mtu, window, now, pacing_rate);
            let elapsed: nat = if s.prev <= now { (now - s.prev) as nat } else { 0 };
            &&& after.tokens * 1_000_000_000 <= s.tokens * 1_000_000_000 + pacing_rate * elapsed
            &&& PacerState::pacing_enabled(smoothed_rtt, window, pacing_rate) && window
                == s.last_window && s.tokens < bytes_to_send && s.tokens + (pacing_rate * elapsed)
                / 1_000_000_000 <= s.capacity ==> after.tokens == s.tokens + (pacing_rate
                * elapsed) / 1_000_000_000
        }),
{
    let w = s.with_window(smoothed_rtt, window, mtu);
    let elapsed: nat = if s.prev <= now { (now - s.prev) as nat } else { 0 };
    assert(w.elapsed(now) == elapsed);
    let q = (pacing_rate * elapsed) / 1_000_000_000;
    assert(q * 1_000_000_000 <= pacing_rate * elapsed) by (nonlinear_arith)
        requires
            q == (pacing_rate * elapsed) / 1_000_000_000,
    ;
    let r = w.refill(now, pacing_rate);
    assert(r <= q) by (nonlinear_arith)
        requires
            r == q % 0x1_0000_0000_0000_0000nat,
    ;
    assert(w.tokens <= s.tokens);
    if s.tokens + q <= s.capacity {
        assert(q < 0x1_0000_0000_0000_0000nat);
        assert(r == q) by (nonlinear_arith)
            requires
                r == q % 0x1_0000_0000_0000_0000nat,
                q < 0x1_0000_0000_0000_0000nat,
        ;
    }
    let after = s.after_delay(smoothed_rtt, bytes_to_send, mtu, window, now, pacing_rate);
    assert(after.tokens <= s.tokens + q);
    assert(after.tokens * 1_000_000_000 <= (s.tokens + q) * 1_000_000_000) by (nonlinear_arith)
        requires
            after.tokens <= s.tokens + q,
    ;
}

/// Something a pacer takes in: a transmission (`on_transmit`) or a query
/// (`delay`), spans and points of time in nanoseconds.
pub enum PacerEvent {
    Transmit { packet_length: nat },
    Delay {
        smoothed_rtt: nat,
        bytes_to_send: nat,
        mtu: nat,
        window: nat,
        now: nat,
        pacing_rate: nat,
    },
}

/// The state after the events `es`, in order.
pub open spec fn after_pacer_events(s: PacerState, es: Seq<PacerEvent>) -> PacerState
    decreases es.len(),
{
    if es.len() == 0 {
        s
    } else {
        let t = after_pacer_events(s, es.drop_last());
        match es.last() {
            PacerEvent::Transmit { packet_length } => t.after_transmit(packet_length),
            PacerEvent::Delay { smoothed_rtt, bytes_to_send, mtu, window, now, pacing_rate } => t.after_delay(
                smoothed_rtt,
                bytes_to_send,
                mtu,
                window,
                now,
                pacing_rate,
            ),
        }
    }
}

/// Over any sequence of transmissions and queries, the bucket never holds more
/// than the capacity.
pub proof fn lemma_events_keep_bucket_bound(s: PacerState, es: Seq<PacerEvent>)
    requires
        s.wf(),
    ensures
        after_pacer_events(s, es).wf(),
    decreases es.len(),
{
    if es.len() > 0 {
        lemma_events_keep_bucket_bound(s, es.drop_last());
    }
}

/// A simple token-bucket pacer
///
/// The pacer's capacity is derived on a fraction of the congestion window
/// which can be sent in regular intervals
/// Once the bucket is empty, further transmission is blocked.
/// The bucket refills at a rate slightly faster
/// than one congestion window per RTT, as recommended in
/// <https://tools.ietf.org/html/draft-ietf-quic-recovery-34#section-7.7>
#[derive(Debug)]
pub struct Pacer {
    capacity: u64,
    last_window: u64,
    last_mtu: u16,
    tokens: u64,
    prev: Instant,
}

impl View for Pacer {
    type V = PacerState;

    closed spec fn view(&self) -> PacerState {
        PacerState {
            capacity: self.capacity as nat,
            last_window: self.last_window as nat,
            last_mtu: self.last_mtu as nat,
            tokens: self.tokens as nat,
            prev: self.prev@,
        }
    }
}

impl Pacer {
    /// The pacer's invariant.
    pub open spec fn wf(&self) -> bool {
        self@.wf()
    }

    /// Obtains a new [`Pacer`].
    pub fn new(smoothed_rtt: Duration, window: u64, mtu: u16, now: Instant) -> (p: Self)
        ensures
            p.wf(),
            p@ == PacerState::initial(smoothed_rtt@, window as nat, mtu as nat, now@),
    {
        let capacity = optimal_capacity(smoothed_rtt, window, mtu);
        Self { capacity, last_window: window, last_mtu: mtu, tokens: capacity, prev: now }
    }

    /// Record that a packet has been transmitted.
    pub fn on_transmit(&mut self, packet_length: u16)
        requires
            old(self).wf(),
        ensures
            final(self).wf(),
            final(self)@ == old(self)@.after_transmit(packet_length as nat),
    {
        self.tokens = self.tokens.saturating_sub(packet_length as u64)
    }

    /// Return how long we need to wait before sending `bytes_to_send`
    ///
    /// If we can send a packet right away, this returns `None`. Otherwise, returns `Some(d)`,
    /// where `d` is the time before this function should be called again.
    ///
    /// The 5/4 ratio used here comes from the suggestion that N = 1.25 in the draft IETF RFC for
    /// QUIC.
    pub fn delay(
        &mut self,
        smoothed_rtt: Duration,
        bytes_to_send: u64,
        mtu: u16,
        window: u64,
        now: Instant,
        pacing_rate: u64,
    ) -> (r: Option<Instant>)
        requires
            old(self).wf(),
            old(self)@.delay_fits(
                smoothed_rtt@,
                bytes_to_send as nat,
                mtu as nat,
                window as nat,
                now@,
                pacing_rate as nat,
            ),
        ensures
            final(self).wf(),
            final(self)@ == old(self)@.after_delay(
                smoothed_rtt@,
                bytes_to_send as nat,
                mtu as nat,
                window as nat,
                now@,
                pacing_rate as nat,
            ),
            match r {
                Some(t) => old(self)@.delay_result(
                    smoothed_rtt@,
                    bytes_to_send as nat,
                    mtu as nat,
                    window as nat,
                    now@,
                    pacing_rate as nat,
                ) == Some(t@),
                None => old(self)@.delay_result(
                    smoothed_rtt@,
                    bytes_to_send as nat,
                    mtu as nat,
                    window as nat,
                    now@,
                    pacing_rate as nat,
                ) is None,
            },
    {
        if smoothed_rtt.is_zero() || window == 0 || pacing_rate == 0 {
            return None;
        }
        // Update capacity and tokens if necessary
        if window != self.last_window {
            self.capacity = optimal_capacity(smoothed_rtt, window, mtu);
            self.tokens = self.capacity.min(self.tokens);
            self.last_window = window;
        }
        // If tokens are enough, no need to wait and update
        if self.tokens >= bytes_to_send {
            return None;
        }
        // Tokens are refilled at the rate of pacing_rate
        let elapsed = now.saturating_duration_since(self.prev);
        let product = pacing_rate as u128 * elapsed.as_nanos();
        let refill_wide = product / 1_000_000_000;
        let refill = refill_wide as u64;
        assert(refill == refill_wide % 0x1_0000_0000_0000_0000) by (bit_vector)
            requires
                refill == refill_wide as u64,
        ;
        self.tokens = self.tokens.saturating_add(refill).min(self.capacity);
        self.prev = now;
        if bytes_to_send <= self.tokens {
            return None;
        }
        // If tokens are not enough, calculate the time to wait for enough tokens.
        let time_to_wait = bytes_to_send.saturating_sub(self.tokens) * 1_000_000_000
            / pacing_rate.max(1);
        Some(self.prev.plus(Duration::from_nanos(time_to_wait)))
    }
}

} // verus!
