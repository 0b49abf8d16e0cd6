# quinn-proto path state, verified

The per-path state of a QUIC connection, written in Verus with its contracts
proved:

- `src/time.rs`: spans (`Duration`) and points (`Instant`) of time, counted in
  nanoseconds.
- `src/rtt.rs`: `RttEstimator`, the RTT estimate of RFC 9002 section 5 and the
  ECN delivery counters, with its model `RttState`.
- `src/pacing.rs`: `Pacer`, a token bucket that spaces out transmissions, and
  `optimal_capacity`, with the model `PacerState`.
- `src/paths.rs`: `PathData`, `InFlight`, `PathResponses` and the peer address
  type `RemoteAddr`.

Each module states the laws it keeps as public proof functions (`lemma_*`).
`app/lib.rs` converts between the library's time and address types and those
of the standard library, and computes the CE ratio as a float.
