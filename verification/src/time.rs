//! Spans and points of time, counted in whole nanoseconds.
use vstd::prelude::*;

verus! {

/// The longest representable span, in nanoseconds: `u64::MAX` seconds plus
/// 999 999 999 nanoseconds.
pub const MAX_NANOS: u128 = 18_446_744_073_709_551_615_999_999_999;

/// Nanoseconds in one second.
pub const NANOS_PER_SEC: u128 = 1_000_000_000;

/// A span of time with nanosecond precision, at most `MAX_NANOS` long.
#[derive(Clone, Copy, Debug, PartialEq, Eq, Structural)]
pub struct Duration {
    nanos: u128,
}

impl View for Duration {
    type V = nat;

    closed spec fn view(&self) -> nat {
        self.nanos as nat
    }
}

impl Duration {
    #[verifier::type_invariant]
    closed spec fn bounded(self) -> bool {
        self.nanos <= MAX_NANOS
    }

    /// The empty span.
    pub fn zero() -> (d: Duration)
        ensures
            d@ == 0,
    {
        Duration { nanos: 0 }
    }

    /// A span of `secs` seconds and `nanos` nanoseconds.
    pub fn new(secs: u64, nanos: u32) -> (d: Duration)
        requires
            secs * NANOS_PER_SEC + nanos <= MAX_NANOS,
        ensures
            d@ == secs * NANOS_PER_SEC + nanos,
    {
        Duration { nanos: secs as u128 * NANOS_PER_SEC + nanos as u128 }
    }

    /// A span of `secs` whole seconds.
    pub fn from_secs(secs: u64) -> (d: Duration)
        ensures
            d@ == secs * NANOS_PER_SEC,
    {
        Duration { nanos: secs as u128 * NANOS_PER_SEC }
    }

    /// A span of `millis` milliseconds.
    pub fn from_millis(millis: u64) -> (d: Duration)
        ensures
            d@ == millis * 1_000_000,
    {
        Duration { nanos: millis as u128 * 1_000_000 }
    }

    /// A span of `micros` microseconds.
    pub fn from_micros(micros: u64) -> (d: Duration)
        ensures
            d@ == micros * 1_000,
    {
        Duration { nanos: micros as u128 * 1_000 }
    }

    /// A span of `nanos` nanoseconds.
    pub fn from_nanos(nanos: u64) -> (d: Duration)
        ensures
            d@ == nanos,
    {
        Duration { nanos: nanos as u128 }
    }

    /// The length of the span in nanoseconds.
    pub fn as_nanos(&self) -> (n: u128)
        ensures
            n == self@,
            n <= MAX_NANOS,
    {
        proof {
            use_type_invariant(self);
        }
        self.nanos
    }

    /// The whole seconds of the span.
    pub fn as_secs(&self) -> (s: u64)
        ensures
            s == self@ / (NANOS_PER_SEC as nat),
    {
        proof {
            use_type_invariant(self);
        }
        (self.nanos / NANOS_PER_SEC) as u64
    }

    /// The nanoseconds of the span beyond its whole seconds.
    pub fn subsec_nanos(&self) -> (n: u32)
        ensures
            n == self@ % (NANOS_PER_SEC as nat),
    {
        (self.nanos % NANOS_PER_SEC) as u32
    }

    /// Whether the span is empty.
    pub fn is_zero(&self) -> (b: bool)
        ensures
            b == (self@ == 0),
    {
        self.nanos == 0
    }

    /// Whether `self` is strictly shorter than `other`.
    pub fn lt(&self, other: &Duration) -> (b: bool)
        ensures
            b == (self@ < other@),
    {
        self.nanos < other.nanos
    }

    /// Whether `self` is at most as long as `other`.
    pub fn le(&self, other: &Duration) -> (b: bool)
        ensures
            b == (self@ <= other@),
    {
        self.nanos <= other.nanos
    }

    /// The longer of the two spans.
    pub fn max(self, other: Duration) -> (d: Duration)
        ensures
            d@ == if self@ >= other@ { self@ } else { other@ },
    {
        if self.nanos >= other.nanos {
            self
        } else {
            other
        }
    }

    /// The sum of two spans; their sum must not exceed `MAX_NANOS`.
    pub fn plus(self, other: Duration) -> (d: Duration)
        requires
            self@ + other@ <= MAX_NANOS,
        ensures
            d@ == self@ + other@,
    {
        Duration { nanos: self.nanos + other.nanos }
    }

    /// The difference of two spans; `other` must not be longer than `self`.
    pub fn minus(self, other: Duration) -> (d: Duration)
        requires
            other@ <= self@,
        ensures
            d@ == self@ - other@,
    {
        proof {
            use_type_invariant(&self);
        }
        Duration { nanos: self.nanos - other.nanos }
    }

    /// The span `factor` times as long; the product must not exceed `MAX_NANOS`.
    pub fn times(self, factor: u32) -> (d: Duration)
        requires
            self@ * factor <= MAX_NANOS,
        ensures
            d@ == self@ * factor,
    {
        Duration { nanos: self.nanos * factor as u128 }
    }

    /// The span divided by `divisor`, rounded down to whole nanoseconds.
    pub fn divided_by(self, divisor: u32) -> (d: Duration)
        requires
            divisor > 0,
        ensures
            d@ == self@ / (divisor as nat),
    {
        proof {
            use_type_invariant(&self);
        }
        Duration { nanos: self.nanos / divisor as u128 }
    }
}

/// A point in time, held as the span elapsed since a fixed origin that the
/// caller chooses (such as the start of the process).
#[derive(Clone, Copy, Debug, PartialEq, Eq, Structural)]
pub struct Instant {
    since_origin: Duration,
}

impl View for Instant {
    type V = nat;

    closed spec fn view(&self) -> nat {
        self.since_origin@
    }
}

impl Instant {
    /// The point `offset` after the origin.
    pub fn from_origin(offset: Duration) -> (t: Instant)
        ensures
            t@ == offset@,
    {
        Instant { since_origin: offset }
    }

    /// The span from the origin to this point.
    pub fn since_origin(&self) -> (d: Duration)
        ensures
            d@ == self@,
    {
        self.since_origin
    }

    /// The time elapsed from `earlier` to `self`, or the empty span where
    /// `earlier` is later than `self`.
    pub fn saturating_duration_since(&self, earlier: Instant) -> (d: Duration)
        ensures
            d@ == if earlier@ <= self@ { self@ - earlier@ } else { 0 },
    {
        if earlier.since_origin.le(&self.since_origin) {
            self.since_origin.minus(earlier.since_origin)
        } else {
            Duration::zero()
        }
    }

    /// The point `offset` after `self`; it must lie within `MAX_NANOS` of the
    /// origin.
    pub fn plus(self, offset: Duration) -> (t: Instant)
        requires
            self@ + offset@ <= MAX_NANOS,
        ensures
            t@ == self@ + offset@,
    {
        Instant { since_origin: self.since_origin.plus(offset) }
    }
}

} // verus!
