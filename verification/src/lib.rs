//! Path state of a QUIC connection: round-trip-time estimation, a token-bucket
//! pacer, per-path congestion counters and queued PATH_RESPONSE frames.
//!
//! Time is measured with the crate's own `Duration` and `Instant`, both counted
//! in nanoseconds, so that every computation on them can be stated exactly.

pub mod time;
pub mod rtt;
pub mod pacing;
pub mod paths;
