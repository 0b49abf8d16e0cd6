//! Per-path state: the remote address, RTT estimate, pacer and congestion
//! counters of a path, and the queue of PATH_RESPONSE frames owed to peers.
use vstd::prelude::*;
use crate::pacing::{Pacer, PacerState, capacity_for};
use crate::rtt::{RttEstimator, RttState};
use crate::time::{Duration, Instant};

verus! {

/// The address of a peer: an IP address and a UDP port.
#[derive(Clone, Copy, Debug, PartialEq, Eq, Structural, Hash)]
pub enum RemoteAddr {
    /// An IPv4 address (its four octets, most significant first) and a port.
    V4 { ipv4: u32, port: u16 },
    /// An IPv6 address (its sixteen octets, most significant first), a port,
    /// the flow information and the scope identifier.
    V6 { ipv6: u128, port: u16, flowinfo: u32, scope_id: u32 },
}

/// What the path counters read of a sent packet.
#[derive(Clone, Copy, Debug, PartialEq, Eq, Structural)]
pub struct SentPacket {
    /// The packet's size, without IP or UDP overhead.
    pub size: u16,
    /// Whether the packet holds frames other than ACK and PADDING.
    pub ack_eliciting: bool,
}

/// Summary statistics of packets that have been sent on a particular path, but which have not yet
/// been acked or deemed lost
#[derive(Clone, Copy, Debug, PartialEq, Eq, Structural)]
pub struct InFlight {
    /// Sum of the sizes of all sent packets considered "in flight" by congestion control
    ///
    /// The size does not include IP or UDP overhead. Packets only containing ACK frames do not
    /// count towards this to ensure congestion control does not impede congestion feedback.
    pub bytes: u64,
    /// Number of packets in flight containing frames other than ACK and PADDING
    ///
    /// This can be 0 even when bytes is not 0 because PADDING frames cause a packet to be
    /// considered "in flight" by congestion control. However, if this is nonzero, bytes will always
    /// also be nonzero.
    pub ack_eliciting: u64,
}

/// 1 for an ack-eliciting packet, 0 for another.
pub open spec fn eliciting_count(packet: SentPacket) -> nat {
    if packet.ack_eliciting { 1 } else { 0 }
}

/// The total size of the packets in `ps`.
pub open spec fn bytes_of(ps: Seq<SentPacket>) -> nat
    decreases ps.len(),
{
    if ps.len() == 0 {
        0
    } else {
        bytes_of(ps.drop_last()) + ps.last().size as nat
    }
}

/// The number of ack-eliciting packets in `ps`.
pub open spec fn ack_eliciting_of(ps: Seq<SentPacket>) -> nat
    decreases ps.len(),
{
    if ps.len() == 0 {
        0
    } else {
        ack_eliciting_of(ps.drop_last()) + eliciting_count(ps.last())
    }
}

impl InFlight {
    /// The counters after `packet` was sent.
    pub open spec fn with_packet(self, packet: SentPacket) -> InFlight {
        InFlight {
            bytes: (self.bytes + packet.size) as u64,
            ack_eliciting: (self.ack_eliciting + eliciting_count(packet)) as u64,
        }
    }

    /// The counters after `packet` left the network.
    pub open spec fn without_packet(self, packet: SentPacket) -> InFlight {
        InFlight {
            bytes: (self.bytes - packet.size) as u64,
            ack_eliciting: (self.ack_eliciting - eliciting_count(packet)) as u64,
        }
    }

    /// Whether these counters are the totals of the packets `ps`.
    pub open spec fn accounts_for(self, ps: Seq<SentPacket>) -> bool {
        self.bytes == bytes_of(ps) && self.ack_eliciting == ack_eliciting_of(ps)
    }

    /// Nothing in flight.
    pub fn new() -> (r: Self)
        ensures
            r.bytes == 0,
            r.ack_eliciting == 0,
    {
        Self { bytes: 0, ack_eliciting: 0 }
    }

    /// Update counters to account for a packet being sent.
    pub fn insert(&mut self, packet: &SentPacket)
        requires
            old(self).bytes + packet.size <= u64::MAX,
            old(self).ack_eliciting + eliciting_count(*packet) <= u64::MAX,
        ensures
            final(self).bytes == old(self).bytes + packet.size,
            final(self).ack_eliciting == old(self).ack_eliciting + eliciting_count(*packet),
            *final(self) == old(self).with_packet(*packet),
    {
        self.bytes += packet.size as u64;
        self.ack_eliciting += if packet.ack_eliciting { 1 } else { 0 };
    }

    /// Update counters to account for a packet becoming acknowledged, lost, or abandoned
    pub fn remove(&mut self, packet: &SentPacket)
        requires
            old(self).bytes >= packet.size,
            old(self).ack_eliciting >= eliciting_count(*packet),
        ensures
            final(self).bytes == old(self).bytes - packet.size,
            final(self).ack_eliciting == old(self).ack_eliciting - eliciting_count(*packet),
            *final(self) == old(self).without_packet(*packet),
    {
        self.bytes -= packet.size as u64;
        self.ack_eliciting -= if packet.ack_eliciting { 1 } else { 0 };
    }
}

/// The packet number spaces of a connection.
#[derive(Clone, Copy, Debug, PartialEq, Eq, Structural, Hash)]
pub enum SpaceId {
    /// Unprotected packets, used to bootstrap the handshake
    Initial,
    /// Packets of the handshake
    Handshake,
    /// Application data space, used for 0-RTT and post-handshake/1-RTT packets
    Data,
}

/// Whether a server that has not validated the peer's address may not send
/// `bytes_to_send` more bytes: it may send at most three times what it has
/// received.
pub open spec fn amplification_blocked(
    validated: bool,
    total_recvd: nat,
    total_sent: nat,
    bytes_to_send: nat,
) -> bool {
    !validated && total_recvd * 3 < total_sent + bytes_to_send
}

/// Description of a particular network path: the state that path accounting
/// keeps for it. The path's congestion controller, MTU discovery and packet
/// spaces are kept by their own components, which hand the values they
/// compute to `new`, `from_previous` and `sent`.
#[derive(Debug)]
pub struct PathData {
    pub remote: RemoteAddr,
    pub rtt: RttEstimator,
    /// Whether we're enabling ECN on outgoing packets
    pub sending_ecn: bool,
    /// Pacing state
    pub pacing: Pacer,
    pub challenge: Option<u64>,
    pub challenge_pending: bool,
    /// Whether we're certain the peer can both send and receive on this address
    ///
    /// Initially equal to `use_stateless_retry` for servers, and becomes false again on every
    /// migration. Always true for clients.
    pub validated: bool,
    /// Total size of all UDP datagrams sent on this path
    pub total_sent: u64,
    /// Total size of all UDP datagrams received on this path
    pub total_recvd: u64,
    /// Packet number of the first packet sent after an RTT sample was collected on this path
    ///
    /// Used in persistent congestion determination.
    pub first_packet_after_rtt_sample: Option<(SpaceId, u64)>,
    pub in_flight: InFlight,
    /// Number of the first packet sent on this path
    ///
    /// Used to determine whether a packet was sent on an earlier path. Insufficient to determine if
    /// a packet was sent on a later path.
    pub first_packet: Option<u64>,
}

impl PathData {
    /// Whether a packet numbered `pn` counts as sent on this path: some
    /// packet was, and the first of them was numbered no later than `pn`.
    pub open spec fn accepts_removal(&self, pn: u64) -> bool {
        match self.first_packet {
            Some(first) => first <= pn,
            None => false,
        }
    }

    /// The path after `packet` numbered `pn` was sent and its packet space
    /// forgot `forgotten_bytes` bytes: the packet is in flight, those bytes
    /// are not, and a first packet number is recorded if none was.
    pub open spec fn after_sent(self, pn: u64, packet: SentPacket, forgotten_bytes: nat) -> PathData {
        PathData {
            in_flight: InFlight {
                bytes: (self.in_flight.bytes + packet.size - forgotten_bytes) as u64,
                ack_eliciting: (self.in_flight.ack_eliciting + eliciting_count(packet)) as u64,
            },
            first_packet: match self.first_packet {
                Some(first) => Some(first),
                None => Some(pn),
            },
            ..self
        }
    }

    /// The path after `packet` numbered `pn` was acknowledged, lost or
    /// abandoned: it leaves the in-flight counters if it was sent on this
    /// path.
    pub open spec fn after_removal(self, pn: u64, packet: SentPacket) -> PathData {
        if self.accepts_removal(pn) {
            PathData { in_flight: self.in_flight.without_packet(packet), ..self }
        } else {
            self
        }
    }

    /// Whether the path is fresh: nothing sent, received or in flight, no
    /// challenge, not validated, ECN enabled.
    pub open spec fn is_fresh(&self) -> bool {
        &&& self.sending_ecn
        &&& self.challenge is None
        &&& !self.challenge_pending
        &&& !self.validated
        &&& self.total_sent == 0
        &&& self.total_recvd == 0
        &&& self.in_flight == InFlight { bytes: 0, ack_eliciting: 0 }
        &&& self.first_packet is None
    }

    /// A fresh path to `remote`, paced for the initial RTT `initial_rtt`, the
    /// congestion controller's initial window `initial_window` and the
    /// initial MTU `initial_mtu`.
    pub fn new(
        remote: RemoteAddr,
        initial_rtt: Duration,
        initial_window: u64,
        initial_mtu: u16,
        now: Instant,
    ) -> (p: Self)
        ensures
            p.is_fresh(),
            p.remote == remote,
            p.first_packet_after_rtt_sample is None,
            p.rtt@ == RttState::initial(),
            p.rtt.wf(),
            p.pacing.wf(),
            p.pacing@ == PacerState::initial(
                initial_rtt@,
                initial_window as nat,
                initial_mtu as nat,
                now@,
            ),
    {
        Self {
            remote,
            rtt: RttEstimator::new(),
            sending_ecn: true,
            pacing: Pacer::new(initial_rtt, initial_window, initial_mtu, now),
            challenge: None,
            challenge_pending: false,
            validated: false,
            total_sent: 0,
            total_recvd: 0,
            first_packet_after_rtt_sample: None,
            in_flight: InFlight::new(),
            first_packet: None,
        }
    }

    /// A fresh path to `remote` that takes over the RTT estimate of `prev` and
    /// its first packet sent after an RTT sample,
    /// paced for that estimate, the congestion window `congestion_window` of
    /// `prev`'s controller and `prev`'s current MTU `current_mtu`.
    pub fn from_previous(
        remote: RemoteAddr,
        prev: &Self,
        congestion_window: u64,
        current_mtu: u16,
        now: Instant,
    ) -> (p: Self)
        ensures
            p.is_fresh(),
            p.remote == remote,
            p.rtt == prev.rtt,
            p.first_packet_after_rtt_sample == prev.first_packet_after_rtt_sample,
            p.pacing.wf(),
            p.pacing@ == PacerState::initial(
                prev.rtt@.smoothed_rtt,
                congestion_window as nat,
                current_mtu as nat,
                now@,
            ),
    {
        let smoothed_rtt = prev.rtt.get();
        Self {
            remote,
            rtt: prev.rtt.clone(),
            pacing: Pacer::new(smoothed_rtt, congestion_window, current_mtu, now),
            sending_ecn: true,
            challenge: None,
            challenge_pending: false,
            validated: false,
            total_sent: 0,
            total_recvd: 0,
            first_packet_after_rtt_sample: prev.first_packet_after_rtt_sample,
            in_flight: InFlight::new(),
            first_packet: None,
        }
    }

    /// Resets the RTT estimate.
    ///
    /// This is useful when it is known the underlying path has changed.
    pub fn reset(&mut self)
        ensures
            final(self).rtt@ == RttState::initial(),
            final(self).rtt.wf(),
            *final(self) == (PathData { rtt: final(self).rtt, ..*old(self) }),
    {
        self.rtt = RttEstimator::new();
    }

    /// Indicates whether we're a server that hasn't validated the peer's address and hasn't
    /// received enough data from the peer to permit sending `bytes_to_send` additional bytes
    pub fn anti_amplification_blocked(&self, bytes_to_send: u64) -> (b: bool)
        requires
            self.total_recvd * 3 <= u64::MAX,
            self.total_sent + bytes_to_send <= u64::MAX,
        ensures
            b == amplification_blocked(
                self.validated,
                self.total_recvd as nat,
                self.total_sent as nat,
                bytes_to_send as nat,
            ),
    {
        !self.validated && self.total_recvd * 3 < self.total_sent + bytes_to_send
    }

    /// Account for transmission of `packet` with number `pn`, where recording
    /// it in its packet space made that space forget `forgotten_bytes` bytes
    /// of earlier packets, which leave the in-flight count.
    pub fn sent(&mut self, pn: u64, packet: SentPacket, forgotten_bytes: u64)
        requires
            old(self).in_flight.bytes + packet.size <= u64::MAX,
            old(self).in_flight.ack_eliciting + eliciting_count(packet) <= u64::MAX,
            forgotten_bytes <= old(self).in_flight.bytes + packet.size,
        ensures
            *final(self) == old(self).after_sent(pn, packet, forgotten_bytes as nat),
    {
        self.in_flight.insert(&packet);
        if self.first_packet.is_none() {
            self.first_packet = Some(pn);
        }
        self.in_flight.bytes -= forgotten_bytes;
    }

    /// Remove `packet` with number `pn` from this path's congestion control counters, or return
    /// `false` if `pn` was sent before this path was established.
    pub fn remove_in_flight(&mut self, pn: u64, packet: &SentPacket) -> (r: bool)
        requires
            old(self).accepts_removal(pn) ==> old(self).in_flight.bytes >= packet.size
                && old(self).in_flight.ack_eliciting >= eliciting_count(*packet),
        ensures
            r == old(self).accepts_removal(pn),
            *final(self) == old(self).after_removal(pn, *packet),
    {
        let refused = match self.first_packet {
            Some(first) => first > pn,
            None => true,
        };
        if refused {
            return false;
        }
        self.in_flight.remove(packet);
        true
    }
}

/// A validated path is never held back by the anti-amplification limit, and
/// a path held back for some bytes is held back for more.
pub proof fn lemma_amplification_limit(
    validated: bool,
    total_recvd: nat,
    total_sent: nat,
    bytes_to_send: nat,
    more_bytes: nat,
)
    ensures
        validated ==> !amplification_blocked(validated, total_recvd, total_sent, bytes_to_send),
        bytes_to_send <= more_bytes && amplification_blocked(
            validated,
            total_recvd,
            total_sent,
            bytes_to_send,
        ) ==> amplification_blocked(validated, total_recvd, total_sent, more_bytes),
        !validated && total_sent + bytes_to_send <= 3 * total_recvd ==> !amplification_blocked(
            validated,
            total_recvd,
            total_sent,
            bytes_to_send,
        ),
{
}

/// The number of the first packet sent on a path is recorded by the first
/// `sent` and kept by every later one.
pub proof fn lemma_first_packet_recorded_once(
    p: PathData,
    pn: u64,
    packet: SentPacket,
    forgotten_bytes: nat,
)
    ensures
        p.first_packet is None ==> p.after_sent(pn, packet, forgotten_bytes).first_packet == Some(
            pn,
        ),
        p.first_packet is Some ==> p.after_sent(pn, packet, forgotten_bytes).first_packet
            == p.first_packet,
{
}

/// A packet sent on this path, at or after the path's first packet, can be
/// removed again, which restores the in-flight counters; a packet numbered
/// before the path's first packet, or any packet before the path sent one,
/// is refused and changes nothing.
pub proof fn lemma_sent_packet_removable(p: PathData, pn: u64, packet: SentPacket)
    requires
        p.in_flight.bytes + packet.size <= u64::MAX,
        p.in_flight.ack_eliciting + eliciting_count(packet) <= u64::MAX,
        p.accepts_removal(pn) || p.first_packet is None,
    ensures
        p.after_sent(pn, packet, 0).accepts_removal(pn),
        p.after_sent(pn, packet, 0).after_removal(pn, packet).in_flight == p.in_flight,
{
}

/// Packets numbered before the first packet of a path, and all packets while
/// the path has sent none, are refused by `remove_in_flight`.
pub proof fn lemma_earlier_packets_refused(p: PathData, pn: u64, packet: SentPacket)
    requires
        match p.first_packet {
            Some(first) => pn < first,
            None => true,
        },
    ensures
        !p.accepts_removal(pn),
        p.after_removal(pn, packet) == p,
{
}

/// A challenge from a peer with no queued response is queued exactly as
/// received, packet number included, behind the queued ones, where there is
/// room.
pub proof fn lemma_new_peer_queued_as_given(s: Seq<PathResponse>, response: PathResponse)
    requires
        forall|i: int| 0 <= i < s.len() ==> (#[trigger] s[i]).remote != response.remote,
        s.len() < MAX_PATH_RESPONSES,
    ensures
        pushed(s, response) == s.push(response),
        pushed(s, response).len() == s.len() + 1,
        pushed(s, response).last() == response,
        forall|i: int| 0 <= i < s.len() ==> #[trigger] pushed(s, response)[i] == s[i],
{
}

/// A queued response is replaced only by a challenge from the same peer that
/// came in a packet no older than the queued one's, and then by exactly that
/// challenge's response; every other queued response stays as it is.
pub proof fn lemma_replacement_needs_newer_packet(
    s: Seq<PathResponse>,
    response: PathResponse,
    i: int,
)
    requires
        responses_wf(s),
        0 <= i < s.len(),
    ensures
        pushed(s, response)[i] != s[i] ==> s[i].remote == response.remote && s[i].packet
            <= response.packet && pushed(s, response)[i] == response,
        forall|j: int|
            0 <= j < s.len() && s[j].remote != response.remote ==> #[trigger] pushed(s, response)[j]
                == s[j],
{
    if has_remote(s, response.remote) {
        let k = index_of_remote(s, response.remote);
        assert(forall|j: int| 0 <= j < s.len() && j != k ==> s[j].remote != s[k].remote);
    }
}

/// Packets numbered at or after the path's first packet count as sent on the
/// path: their removal is accepted and takes exactly their size and count out
/// of the in-flight counters.
pub proof fn lemma_later_packets_accepted(p: PathData, pn: u64, packet: SentPacket)
    requires
        p.first_packet matches Some(first) && first <= pn,
        p.in_flight.bytes >= packet.size,
        p.in_flight.ack_eliciting >= eliciting_count(packet),
    ensures
        p.accepts_removal(pn),
        p.after_removal(pn, packet).in_flight.bytes == p.in_flight.bytes - packet.size,
        p.after_removal(pn, packet).in_flight.ack_eliciting == p.in_flight.ack_eliciting
            - eliciting_count(packet),
        p.after_removal(pn, packet).first_packet == p.first_packet,
{
}

/// After packets numbered `pn1` and then `pn2 >= pn1` were sent on a path that
/// had sent nothing before, each of them, and every number between, is
/// accepted for removal.
pub proof fn lemma_sent_packets_accepted(
    p: PathData,
    pn1: u64,
    a: SentPacket,
    pn2: u64,
    b: SentPacket,
    pn: u64,
)
    requires
        p.first_packet is None,
        pn1 <= pn <= pn2,
    ensures
        p.after_sent(pn1, a, 0).after_sent(pn2, b, 0).accepts_removal(pn),
        p.after_sent(pn1, a, 0).after_sent(pn2, b, 0).accepts_removal(pn1),
        p.after_sent(pn1, a, 0).after_sent(pn2, b, 0).accepts_removal(pn2),
{
}

/// Taking a packet out of the counters undoes putting it in, and the other
/// way round.
pub proof fn lemma_insert_remove_inverse(f: InFlight, packet: SentPacket)
    ensures
        f.bytes + packet.size <= u64::MAX && f.ack_eliciting + eliciting_count(packet) <= u64::MAX
            ==> f.with_packet(packet).without_packet(packet) == f,
        f.bytes >= packet.size && f.ack_eliciting >= eliciting_count(packet)
            ==> f.without_packet(packet).with_packet(packet) == f,
{
}

/// Removing the packet at `i` takes exactly its size and count out of the
/// totals of a sequence of packets.
pub proof fn lemma_totals_remove(ps: Seq<SentPacket>, i: int)
    requires
        0 <= i < ps.len(),
    ensures
        bytes_of(ps) == bytes_of(ps.remove(i)) + ps[i].size,
        ack_eliciting_of(ps) == ack_eliciting_of(ps.remove(i)) + eliciting_count(ps[i]),
    decreases ps.len(),
{
    if i == ps.len() - 1 {
        assert(ps.remove(i) =~= ps.drop_last());
    } else {
        let rest = ps.drop_last();
        lemma_totals_remove(rest, i);
        assert(ps.remove(i).drop_last() =~= rest.remove(i));
        assert(ps.remove(i).last() == ps.last());
    }
}

/// Counters kept by `insert` and `remove` hold the totals of the packets in
/// flight: sending a packet adds it to them, and a packet in flight can always
/// be removed, which takes it out of them.
pub proof fn lemma_counters_track_packets(f: InFlight, ps: Seq<SentPacket>, packet: SentPacket, i: int)
    requires
        f.accounts_for(ps),
    ensures
        f.bytes + packet.size <= u64::MAX && f.ack_eliciting + eliciting_count(packet) <= u64::MAX
            ==> f.with_packet(packet).accounts_for(ps.push(packet)),
        0 <= i < ps.len() ==> {
            &&& f.bytes >= ps[i].size
            &&& f.ack_eliciting >= eliciting_count(ps[i])
            &&& f.without_packet(ps[i]).accounts_for(ps.remove(i))
        },
{
    assert(ps.push(packet).drop_last() =~= ps);
    if 0 <= i < ps.len() {
        lemma_totals_remove(ps, i);
    }
}

/// Where every ack-eliciting packet has a nonzero size, a nonzero count of
/// ack-eliciting packets in flight means nonzero bytes in flight.
pub proof fn lemma_ack_eliciting_implies_bytes(ps: Seq<SentPacket>)
    requires
        forall|j: int| 0 <= j < ps.len() && (#[trigger] ps[j]).ack_eliciting ==> ps[j].size > 0,
    ensures
        ack_eliciting_of(ps) > 0 ==> bytes_of(ps) > 0,
    decreases ps.len(),
{
    if ps.len() > 0 {
        let rest = ps.drop_last();
        assert forall|j: int| 0 <= j < rest.len() && (#[trigger] rest[j]).ack_eliciting implies rest[j].size
            > 0 by {
            assert(rest[j] == ps[j]);
        }
        lemma_ack_eliciting_implies_bytes(rest);
        assert(ps.last() == ps[ps.len() - 1]);
    }
}

/// Arbitrary permissive limit on queued path responses, to prevent abuse.
pub const MAX_PATH_RESPONSES: usize = 16;

/// A PATH_RESPONSE frame owed to a peer.
#[derive(Clone, Copy, Debug, PartialEq, Eq, Structural)]
pub struct PathResponse {
    /// The packet number the corresponding PATH_CHALLENGE was received in
    pub packet: u64,
    pub token: u64,
    /// The address the corresponding PATH_CHALLENGE was received from
    pub remote: RemoteAddr,
}

/// Whether some queued response goes to `remote`.
pub open spec fn has_remote(s: Seq<PathResponse>, remote: RemoteAddr) -> bool {
    exists|i: int| 0 <= i < s.len() && (#[trigger] s[i]).remote == remote
}

/// The position of the response queued for `remote` (meaningful where
/// `has_remote` holds).
pub open spec fn index_of_remote(s: Seq<PathResponse>, remote: RemoteAddr) -> int {
    choose|i: int| 0 <= i < s.len() && (#[trigger] s[i]).remote == remote
}

/// The queue after a PATH_CHALLENGE with `response` was received: a queued
/// response to the same peer is replaced where the new challenge came in a
/// packet no older than the queued one's; otherwise the response is queued
/// where there is room, and dropped where there is none.
pub open spec fn pushed(s: Seq<PathResponse>, response: PathResponse) -> Seq<PathResponse> {
    if has_remote(s, response.remote) {
        let i = index_of_remote(s, response.remote);
        if s[i].packet <= response.packet {
            s.update(i, response)
        } else {
            s
        }
    } else if s.len() < MAX_PATH_RESPONSES {
        s.push(response)
    } else {
        s
    }
}

/// What `pop_off_path` returns and leaves: the last response and the queue
/// without it, where the last response goes to another address than `remote`.
pub open spec fn popped_off_path(s: Seq<PathResponse>, remote: RemoteAddr) -> (
    Option<(u64, RemoteAddr)>,
    Seq<PathResponse>,
) {
    if s.len() == 0 || s.last().remote == remote {
        (None, s)
    } else {
        (Some((s.last().token, s.last().remote)), s.drop_last())
    }
}

/// What `pop_on_path` returns and leaves: the last response's token and the
/// queue without it, where the last response goes to `remote`.
pub open spec fn popped_on_path(s: Seq<PathResponse>, remote: RemoteAddr) -> (
    Option<u64>,
    Seq<PathResponse>,
) {
    if s.len() == 0 || s.last().remote != remote {
        (None, s)
    } else {
        (Some(s.last().token), s.drop_last())
    }
}

/// The queue's invariant: at most `MAX_PATH_RESPONSES` responses, no two to
/// the same address.
pub open spec fn responses_wf(s: Seq<PathResponse>) -> bool {
    &&& s.len() <= MAX_PATH_RESPONSES
    &&& forall|i: int, j: int|
        0 <= i < s.len() && 0 <= j < s.len() && i != j ==> (#[trigger] s[i]).remote != (
        #[trigger] s[j]).remote
}

/// PATH_RESPONSE frames waiting to be sent.
#[derive(Debug)]
pub struct PathResponses {
    pending: Vec<PathResponse>,
}

impl View for PathResponses {
    type V = Seq<PathResponse>;

    closed spec fn view(&self) -> Seq<PathResponse> {
        self.pending@
    }
}

impl Default for PathResponses {
    fn default() -> (r: Self)
        ensures
            r@ == Seq::<PathResponse>::empty(),
    {
        Self::new()
    }
}

impl PathResponses {
    /// The queue's invariant.
    pub open spec fn wf(&self) -> bool {
        responses_wf(self@)
    }

    /// An empty queue.
    pub fn new() -> (r: Self)
        ensures
            r@ == Seq::<PathResponse>::empty(),
            r.wf(),
    {
        Self { pending: Vec::new() }
    }

    /// Queue a response to a PATH_CHALLENGE with `token`, received from
    /// `remote` in packet number `packet`.
    pub fn push(&mut self, packet: u64, token: u64, remote: RemoteAddr)
        requires
            old(self).wf(),
        ensures
            final(self).wf(),
            final(self)@ == pushed(old(self)@, PathResponse { packet, token, remote }),
    {
        let response = PathResponse { packet, token, remote };
        let mut i: usize = 0;
        while i < self.pending.len()
            invariant
                i <= self.pending@.len(),
                self.pending@ == old(self)@,
                response == (PathResponse { packet, token, remote }),
                responses_wf(old(self)@),
                forall|j: int| 0 <= j < i ==> (#[trigger] old(self)@[j]).remote != remote,
            decreases self.pending@.len() - i,
        {
            if self.pending[i].remote == remote {
                // Update a queued response
                proof {
                    let s = old(self)@;
                    assert(has_remote(s, remote));
                    let k = index_of_remote(s, remote);
                    assert(k == i as int);
                }
                if self.pending[i].packet <= packet {
                    self.pending.set(i, response);
                    proof {
                        let s = old(self)@;
                        let t = self.pending@;
                        assert forall|a: int, b: int|
                            0 <= a < t.len() && 0 <= b < t.len() && a != b implies (
                            #[trigger] t[a]).remote != (#[trigger] t[b]).remote by {
                            if a != i && b != i {
                                assert(s[a].remote != s[b].remote);
                            } else if a == i {
                                assert(s[b].remote != s[i as int].remote);
                            } else {
                                assert(s[a].remote != s[i as int].remote);
                            }
                        }
                    }
                }
                return;
            }
            i += 1;
        }
        proof {
            assert(!has_remote(old(self)@, remote));
        }
        if self.pending.len() < MAX_PATH_RESPONSES {
            self.pending.push(response);
        }
        // We don't expect to ever hit the limit with well-behaved peers, so we don't bother
        // dropping older challenges.
    }

    /// Take the last queued response where it goes to another address than
    /// `remote`: its token and address.
    pub fn pop_off_path(&mut self, remote: RemoteAddr) -> (r: Option<(u64, RemoteAddr)>)
        requires
            old(self).wf(),
        ensures
            final(self).wf(),
            (r, final(self)@) == popped_off_path(old(self)@, remote),
    {
        let len = self.pending.len();
        if len == 0 {
            return None;
        }
        let response = self.pending[len - 1];
        if response.remote == remote {
            // We don't bother searching further because we expect that the on-path response will
            // get drained in the immediate future by a call to `pop_on_path`
            return None;
        }
        self.pending.pop();
        proof {
            assert(self.pending@ =~= old(self)@.drop_last());
        }
        Some((response.token, response.remote))
    }

    /// Take the last queued response where it goes to `remote`: its token.
    pub fn pop_on_path(&mut self, remote: RemoteAddr) -> (r: Option<u64>)
        requires
            old(self).wf(),
        ensures
            final(self).wf(),
            (r, final(self)@) == popped_on_path(old(self)@, remote),
    {
        let len = self.pending.len();
        if len == 0 {
            return None;
        }
        let response = self.pending[len - 1];
        if response.remote != remote {
            // We don't bother searching further because we expect that the off-path response will
            // get drained in the immediate future by a call to `pop_off_path`
            return None;
        }
        self.pending.pop();
        proof {
            assert(self.pending@ =~= old(self)@.drop_last());
        }
        Some(response.token)
    }

    /// Whether no response is queued.
    pub fn is_empty(&self) -> (b: bool)
        ensures
            b == (self@.len() == 0),
    {
        self.pending.len() == 0
    }
}

/// A response queued for a new peer is the one that `pop_on_path` for that
/// peer hands back next, which restores the queue.
pub proof fn lemma_push_then_pop_on_path(s: Seq<PathResponse>, response: PathResponse)
    requires
        !has_remote(s, response.remote),
        s.len() < MAX_PATH_RESPONSES,
    ensures
        popped_on_path(pushed(s, response), response.remote) == (Some(response.token), s),
{
    assert(pushed(s, response).drop_last() =~= s);
}

/// At most one response per peer: a challenge from a peer with a queued
/// response replaces that response in place where it came in a packet no
/// older than the queued one's, and is ignored otherwise.
pub proof fn lemma_challenge_replaces_same_peer(s: Seq<PathResponse>, response: PathResponse, i: int)
    requires
        responses_wf(s),
        0 <= i < s.len(),
        s[i].remote == response.remote,
    ensures
        s[i].packet <= response.packet ==> pushed(s, response) == s.update(i, response),
        response.packet < s[i].packet ==> pushed(s, response) == s,
{
    assert(has_remote(s, response.remote));
    let k = index_of_remote(s, response.remote);
    assert(k == i) by {
        if k != i {
            assert(s[k].remote != s[i].remote);
        }
    }
}

/// A full queue drops a challenge from a peer it holds no response for, and
/// the queue never grows by more than one response.
pub proof fn lemma_queue_is_bounded(s: Seq<PathResponse>, response: PathResponse)
    ensures
        s.len() >= MAX_PATH_RESPONSES && !has_remote(s, response.remote) ==> pushed(s, response)
            == s,
        pushed(s, response).len() <= s.len() + 1,
        s.len() <= MAX_PATH_RESPONSES ==> pushed(s, response).len() <= MAX_PATH_RESPONSES,
{
}

/// On a nonempty queue exactly one of `pop_on_path` and `pop_off_path` for
/// the same address hands out a response; each takes only the last one.
pub proof fn lemma_pops_exclusive(s: Seq<PathResponse>, remote: RemoteAddr)
    requires
        s.len() > 0,
    ensures
        popped_on_path(s, remote).0 is Some != popped_off_path(s, remote).0 is Some,
        popped_on_path(s, remote).0 is Some ==> popped_on_path(s, remote).1 == s.drop_last(),
        popped_off_path(s, remote).0 is Some ==> popped_off_path(s, remote).1 == s.drop_last(),
{
}

/// The counters and the packets in flight after the changes `ops`, starting
/// from nothing in flight: `(true, p)` is `insert(&p)`, `(false, p)` is
/// `remove(&p)`, which takes one packet equal to `p` out of those in flight.
pub open spec fn flight_run(ops: Seq<(bool, SentPacket)>) -> (InFlight, Seq<SentPacket>)
    decreases ops.len(),
{
    if ops.len() == 0 {
        (InFlight { bytes: 0, ack_eliciting: 0 }, Seq::empty())
    } else {
        let (f, ps) = flight_run(ops.drop_last());
        let (sent, p) = ops.last();
        if sent {
            (f.with_packet(p), ps.push(p))
        } else {
            (f.without_packet(p), ps.remove(ps.index_of(p)))
        }
    }
}

/// Whether the changes `ops` are a proper run: no insert overflows the
/// counters, and every removed packet is in flight at the time.
pub open spec fn flight_run_ok(ops: Seq<(bool, SentPacket)>) -> bool
    decreases ops.len(),
{
    ops.len() == 0 || {
        let (f, ps) = flight_run(ops.drop_last());
        let (sent, p) = ops.last();
        &&& flight_run_ok(ops.drop_last())
        &&& sent ==> f.bytes + p.size <= u64::MAX && f.ack_eliciting + eliciting_count(p)
            <= u64::MAX
        &&& !sent ==> ps.contains(p)
    }
}

/// Whether every ack-eliciting packet among `ps` has a nonzero size.
pub open spec fn eliciting_packets_nonempty(ps: Seq<SentPacket>) -> bool {
    forall|j: int| 0 <= j < ps.len() && (#[trigger] ps[j]).ack_eliciting ==> ps[j].size > 0
}

/// Along a proper run of inserts and removes from nothing in flight, the
/// counters are the totals of the packets in flight (so each remove meets its
/// `requires`), and where every ack-eliciting packet of the run has a nonzero
/// size, a nonzero ack-eliciting count comes with nonzero bytes.
pub proof fn lemma_flight_run(ops: Seq<(bool, SentPacket)>)
    requires
        flight_run_ok(ops),
    ensures
        flight_run(ops).0.accounts_for(flight_run(ops).1),
        (forall|i: int| 0 <= i < ops.len() && (#[trigger] ops[i]).1.ack_eliciting ==> ops[i].1.size
            > 0) ==> {
            &&& eliciting_packets_nonempty(flight_run(ops).1)
            &&& flight_run(ops).0.ack_eliciting > 0 ==> flight_run(ops).0.bytes > 0
        },
    decreases ops.len(),
{
    if ops.len() > 0 {
        let init = ops.drop_last();
        lemma_flight_run(init);
        let (f, ps) = flight_run(init);
        let (sent, p) = ops.last();
        if sent {
            lemma_counters_track_packets(f, ps, p, 0);
        } else {
            let k = ps.index_of(p);
            assert(ps.contains(p));
            assert(0 <= k < ps.len() && ps[k] == p);
            lemma_counters_track_packets(f, ps, p, k);
        }
        if forall|i: int| 0 <= i < ops.len() && (#[trigger] ops[i]).1.ack_eliciting ==> ops[i].1.size
            > 0 {
            assert forall|i: int| 0 <= i < init.len() && (#[trigger] init[i]).1.ack_eliciting implies init[i].1.size
                > 0 by {
                assert(init[i] == ops[i]);
            }
            assert(ops.last() == ops[ops.len() - 1]);
            let qs = flight_run(ops).1;
            assert forall|j: int| 0 <= j < qs.len() && (#[trigger] qs[j]).ack_eliciting implies qs[j].size
                > 0 by {
                if sent {
                    if j < ps.len() {
                        assert(qs[j] == ps[j]);
                    }
                } else {
                    let k = ps.index_of(p);
                    if j < k {
                        assert(qs[j] == ps[j]);
                    } else {
                        assert(qs[j] == ps[j + 1]);
                    }
                }
            }
            lemma_ack_eliciting_implies_bytes(qs);
        }
    }
}

} // verus!
