//! Flow events: lifecycle, per-packet, state changes, anomalies and
//! periodic statistics, with their stable labels.

use vstd::prelude::*;

verus! {

/// A capture timestamp: seconds and nanoseconds.
#[derive(Debug, Clone, Copy, PartialEq, Eq, Structural, Default, Hash)]
pub struct Timestamp {
    pub sec: u32,
    pub nsec: u32,
}

/// Nanoseconds since the epoch of a timestamp.
pub open spec fn ts_nanos(t: Timestamp) -> int {
    t.sec * 1_000_000_000 + t.nsec
}

/// Which way a packet travels relative to a flow key's `(a, b)` order.
#[derive(Debug, Clone, Copy, PartialEq, Eq, Structural, Default, Hash)]
pub enum Orientation {
    #[default]
    Forward,
    Reverse,
}

impl Orientation {
    /// The opposite orientation.
    pub fn flipped(self) -> (o: Orientation)
        ensures
            o != self,
    {
        match self {
            Orientation::Forward => Orientation::Reverse,
            Orientation::Reverse => Orientation::Forward,
        }
    }
}

/// Transport protocol of a flow.
#[derive(Debug, Clone, Copy, PartialEq, Eq, Structural, Hash)]
pub enum L4Proto {
    Tcp,
    Udp,
    Icmp,
    IcmpV6,
    Sctp,
    /// Any other IP protocol number.
    Other(u8),
}

/// The lowercase slug of each protocol.
pub open spec fn l4_slug(p: L4Proto) -> Seq<char> {
    match p {
        L4Proto::Tcp => "tcp"@,
        L4Proto::Udp => "udp"@,
        L4Proto::Icmp => "icmp"@,
        L4Proto::IcmpV6 => "icmp6"@,
        L4Proto::Sctp => "sctp"@,
        L4Proto::Other(_) => "other"@,
    }
}

impl L4Proto {
    /// Lowercase protocol slug; `"other"` for an unnamed protocol.
    pub fn canonical_name(&self) -> (s: &'static str)
        ensures
            s@ == l4_slug(*self),
    {
        match self {
            L4Proto::Tcp => "tcp",
            L4Proto::Udp => "udp",
            L4Proto::Icmp => "icmp",
            L4Proto::IcmpV6 => "icmp6",
            L4Proto::Sctp => "sctp",
            L4Proto::Other(_) => "other",
        }
    }
}

/// Which side of a flow sent a packet.
#[derive(Debug, Clone, Copy, PartialEq, Eq, Structural, Hash)]
pub enum FlowSide {
    /// The side that opened the flow.
    Initiator,
    /// The other side.
    Responder,
}

/// Why a flow ended.
#[derive(Debug, Clone, Copy, PartialEq, Eq, Structural)]
pub enum EndReason {
    /// TCP FIN observed.
    Fin,
    /// TCP RST observed.
    Rst,
    /// No packets within the idle timeout.
    IdleTimeout,
    /// The tracker evicted the flow to make room.
    Evicted,
    /// A reassembler that drops the flow on overflow hit its cap.
    BufferOverflow,
    /// A parser reported itself poisoned.
    ParseError,
    /// A parser reported clean completion.
    ParserDone,
    /// Closed on request from outside.
    ForceClosed,
}

/// The snake-case slug of each end reason.
pub open spec fn end_reason_slug(r: EndReason) -> Seq<char> {
    match r {
        EndReason::Fin => "fin"@,
        EndReason::Rst => "rst"@,
        EndReason::IdleTimeout => "idle"@,
        EndReason::Evicted => "evicted"@,
        EndReason::BufferOverflow => "buffer_overflow"@,
        EndReason::ParseError => "parse_error"@,
        EndReason::ParserDone => "parser_done"@,
        EndReason::ForceClosed => "force_closed"@,
    }
}

/// The Zeek `conn_state` of each end reason.
pub open spec fn zeek_state(r: EndReason) -> Seq<char> {
    match r {
        EndReason::Fin | EndReason::ParserDone => "SF"@,
        EndReason::Rst => "RSTO"@,
        EndReason::BufferOverflow => "S0"@,
        EndReason::ParseError => "REJ"@,
        EndReason::IdleTimeout | EndReason::Evicted | EndReason::ForceClosed => "OTH"@,
    }
}

/// Each end reason's Zeek `conn_state`: a clean close (FIN, or a parser
/// that finished) is `SF`, a reset `RSTO`, an overflow `S0`, a parse
/// error `REJ`, and an idle timeout, eviction or forced close `OTH`. So
/// a reset is never written as a normal close.
pub proof fn lemma_zeek_states(r: EndReason)
    ensures
        zeek_state(EndReason::Fin) == "SF"@,
        zeek_state(EndReason::ParserDone) == "SF"@,
        zeek_state(EndReason::Rst) == "RSTO"@,
        zeek_state(EndReason::BufferOverflow) == "S0"@,
        zeek_state(EndReason::ParseError) == "REJ"@,
        zeek_state(EndReason::IdleTimeout) == "OTH"@,
        zeek_state(EndReason::Evicted) == "OTH"@,
        zeek_state(EndReason::ForceClosed) == "OTH"@,
        zeek_state(r) == "SF"@ <==> (r == EndReason::Fin || r == EndReason::ParserDone),
        zeek_state(r) == "RSTO"@ <==> r == EndReason::Rst,
        zeek_state(EndReason::Rst) != zeek_state(EndReason::Fin),
{
    reveal_strlit("SF");
    reveal_strlit("RSTO");
    reveal_strlit("S0");
    reveal_strlit("REJ");
    reveal_strlit("OTH");
    assert("SF"@.len() == 2 && "RSTO"@.len() == 4 && "S0"@.len() == 2 && "REJ"@.len() == 3
        && "OTH"@.len() == 3);
    assert("SF"@[1] == 'F' && "S0"@[1] == '0' && "REJ"@[0] == 'R' && "OTH"@[0] == 'O');
    assert("SF"@ != "RSTO"@ && "SF"@ != "S0"@ && "SF"@ != "REJ"@ && "SF"@ != "OTH"@);
    assert("RSTO"@ != "S0"@ && "RSTO"@ != "REJ"@ && "RSTO"@ != "OTH"@);
}

/// Each end reason's slug, and no two reasons share one.
pub proof fn lemma_end_reason_slugs(a: EndReason, b: EndReason)
    ensures
        end_reason_slug(EndReason::Fin) == "fin"@,
        end_reason_slug(EndReason::Rst) == "rst"@,
        end_reason_slug(EndReason::IdleTimeout) == "idle"@,
        end_reason_slug(EndReason::Evicted) == "evicted"@,
        end_reason_slug(EndReason::BufferOverflow) == "buffer_overflow"@,
        end_reason_slug(EndReason::ParseError) == "parse_error"@,
        end_reason_slug(EndReason::ParserDone) == "parser_done"@,
        end_reason_slug(EndReason::ForceClosed) == "force_closed"@,
        end_reason_slug(a) == end_reason_slug(b) ==> a == b,
{
    reveal_strlit("fin");
    reveal_strlit("rst");
    reveal_strlit("idle");
    reveal_strlit("evicted");
    reveal_strlit("buffer_overflow");
    reveal_strlit("parse_error");
    reveal_strlit("parser_done");
    reveal_strlit("force_closed");
    if end_reason_slug(a) == end_reason_slug(b) && a != b {
        let sa = end_reason_slug(a);
        let sb = end_reason_slug(b);
        assert(sa.len() != sb.len() || sa[0] != sb[0] || sa[1] != sb[1] || sa[2] != sb[2] || sa[6] != sb[6]);
    }
}

impl EndReason {
    /// Snake-case label of the end reason.
    pub fn as_str(&self) -> (s: &'static str)
        ensures
            s@ == end_reason_slug(*self),
    {
        match self {
            EndReason::Fin => "fin",
            EndReason::Rst => "rst",
            EndReason::IdleTimeout => "idle",
            EndReason::Evicted => "evicted",
            EndReason::BufferOverflow => "buffer_overflow",
            EndReason::ParseError => "parse_error",
            EndReason::ParserDone => "parser_done",
            EndReason::ForceClosed => "force_closed",
        }
    }

    /// The closest Zeek `conn_state` code.
    pub fn as_zeek_state(&self) -> (s: &'static str)
        ensures
            s@ == zeek_state(*self),
    {
        match self {
            EndReason::Fin | EndReason::ParserDone => "SF",
            EndReason::Rst => "RSTO",
            EndReason::BufferOverflow => "S0",
            EndReason::ParseError => "REJ",
            EndReason::IdleTimeout | EndReason::Evicted | EndReason::ForceClosed => "OTH",
        }
    }
}

/// What a reassembler does when its buffer fills.
#[derive(Debug, Clone, Copy, PartialEq, Eq, Structural, Default)]
pub enum OverflowPolicy {
    /// Drop the oldest bytes and keep going.
    #[default]
    SlidingWindow,
    /// Tear the flow down.
    DropFlow,
}

/// Which copy wins when TCP segments overlap.
#[derive(Debug, Clone, Copy, PartialEq, Eq, Structural, Hash, Default)]
pub enum TcpOverlapPolicy {
    #[default]
    First,
    Last,
    LowerSeq,
    HigherSeq,
}

/// The slug of each overlap policy.
pub open spec fn overlap_slug(p: TcpOverlapPolicy) -> Seq<char> {
    match p {
        TcpOverlapPolicy::First => "first"@,
        TcpOverlapPolicy::Last => "last"@,
        TcpOverlapPolicy::LowerSeq => "lower_seq"@,
        TcpOverlapPolicy::HigherSeq => "higher_seq"@,
    }
}

impl TcpOverlapPolicy {
    /// Snake-case label of the policy.
    pub fn as_str(&self) -> (s: &'static str)
        ensures
            s@ == overlap_slug(*self),
    {
        match self {
            TcpOverlapPolicy::First => "first",
            TcpOverlapPolicy::Last => "last",
            TcpOverlapPolicy::LowerSeq => "lower_seq",
            TcpOverlapPolicy::HigherSeq => "higher_seq",
        }
    }
}

/// What happens when the global memory cap is hit.
#[derive(Debug, Clone, Copy, PartialEq, Eq, Structural, Hash, Default)]
pub enum MemcapPolicy {
    #[default]
    Ignore,
    DropFlow,
    DropPacket,
    PassThrough,
}

/// The slug of each memcap policy.
pub open spec fn memcap_slug(p: MemcapPolicy) -> Seq<char> {
    match p {
        MemcapPolicy::Ignore => "ignore"@,
        MemcapPolicy::DropFlow => "drop_flow"@,
        MemcapPolicy::DropPacket => "drop_packet"@,
        MemcapPolicy::PassThrough => "pass_through"@,
    }
}

impl MemcapPolicy {
    /// Snake-case label of the policy.
    pub fn as_str(&self) -> (s: &'static str)
        ensures
            s@ == memcap_slug(*self),
    {
        match self {
            MemcapPolicy::Ignore => "ignore",
            MemcapPolicy::DropFlow => "drop_flow",
            MemcapPolicy::DropPacket => "drop_packet",
            MemcapPolicy::PassThrough => "pass_through",
        }
    }
}

/// Per-flow counters.
#[derive(Debug, Clone, Copy, Default)]
pub struct FlowStats {
    pub packets_initiator: u64,
    pub packets_responder: u64,
    pub bytes_initiator: u64,
    pub bytes_responder: u64,
    pub started: Timestamp,
    pub last_seen: Timestamp,
    pub reassembly_dropped_ooo_initiator: u64,
    pub reassembly_dropped_ooo_responder: u64,
    pub reassembly_bytes_dropped_oversize_initiator: u64,
    pub reassembly_bytes_dropped_oversize_responder: u64,
    pub reassembler_high_watermark_initiator: u64,
    pub reassembler_high_watermark_responder: u64,
    pub retransmits_initiator: u64,
    pub retransmits_responder: u64,
    pub last_seen_initiator: Timestamp,
    pub last_seen_responder: Timestamp,
    pub active_period_start: Option<Timestamp>,
    /// The orientation of the initiator's packets.
    pub initiator_orientation: Orientation,
    /// Capture source of the forward leg, when captured on several.
    pub source_idx_forward: Option<u32>,
    /// Capture source of the reverse leg.
    pub source_idx_reverse: Option<u32>,
    /// The two legs disagree about where they were captured.
    pub capture_leg_inconsistent: bool,
}

/// The `std::time::Duration` that `Duration::from_nanos` builds of `n`
/// nanoseconds.
pub uninterp spec fn duration_from_nanos(n: u64) -> std::time::Duration;

/// Builds a `std::time::Duration` of `n` nanoseconds with
/// `Duration::from_nanos`; the value is that function's, named, as the
/// type is opaque here.
#[verifier::external_body]
pub(crate) fn duration_of_nanos(n: u64) -> (d: std::time::Duration)
    ensures
        d == duration_from_nanos(n),
{
    std::time::Duration::from_nanos(n)
}

impl FlowStats {
    /// Bytes in both directions.
    pub fn total_bytes(&self) -> (n: u64)
        requires
            self.bytes_initiator + self.bytes_responder <= u64::MAX,
        ensures
            n == self.bytes_initiator + self.bytes_responder,
    {
        self.bytes_initiator + self.bytes_responder
    }

    /// Packets in both directions.
    pub fn total_packets(&self) -> (n: u64)
        requires
            self.packets_initiator + self.packets_responder <= u64::MAX,
        ensures
            n == self.packets_initiator + self.packets_responder,
    {
        self.packets_initiator + self.packets_responder
    }

    /// Retransmitted segments in both directions.
    pub fn total_retransmits(&self) -> (n: u64)
        requires
            self.retransmits_initiator + self.retransmits_responder <= u64::MAX,
        ensures
            n == self.retransmits_initiator + self.retransmits_responder,
    {
        self.retransmits_initiator + self.retransmits_responder
    }

    /// Nanoseconds from the first to the last packet; zero if the clock
    /// went backwards.
    pub fn duration_nanos(&self) -> (n: u64)
        ensures
            n == (if ts_nanos(self.last_seen) > ts_nanos(self.started) {
                ts_nanos(self.last_seen) - ts_nanos(self.started)
            } else {
                0
            }),
    {
        let last: u128 = self.last_seen.sec as u128 * 1_000_000_000 + self.last_seen.nsec as u128;
        let first: u128 = self.started.sec as u128 * 1_000_000_000 + self.started.nsec as u128;
        if last > first {
            assert(last - first <= 18446744073709551615) by (nonlinear_arith)
                requires
                    last == self.last_seen.sec * 1_000_000_000 + self.last_seen.nsec,
                    first >= 0,
                    self.last_seen.sec <= 4294967295,
                    self.last_seen.nsec <= 4294967295,
            ;
            (last - first) as u64
        } else {
            0
        }
    }

    /// Time from the first to the last packet (zero if the clock went
    /// backwards).
    pub fn duration(&self) -> (d: std::time::Duration)
        ensures
            d == duration_from_nanos(
                if ts_nanos(self.last_seen) > ts_nanos(self.started) {
                    (ts_nanos(self.last_seen) - ts_nanos(self.started)) as u64
                } else {
                    0u64
                },
            ),
    {
        duration_of_nanos(self.duration_nanos())
    }

    /// Which side sends packets of an orientation.
    pub fn side_for(&self, orientation: Orientation) -> (s: FlowSide)
        ensures
            s == (if orientation == self.initiator_orientation {
                FlowSide::Initiator
            } else {
                FlowSide::Responder
            }),
    {
        if orientation == self.initiator_orientation {
            FlowSide::Initiator
        } else {
            FlowSide::Responder
        }
    }

    /// The orientation of a side's packets.
    pub fn orientation_for(&self, side: FlowSide) -> (o: Orientation)
        ensures
            side == FlowSide::Initiator ==> o == self.initiator_orientation,
            side == FlowSide::Responder ==> o != self.initiator_orientation,
    {
        match side {
            FlowSide::Initiator => self.initiator_orientation,
            FlowSide::Responder => self.initiator_orientation.flipped(),
        }
    }

    /// Capture source of an orientation's leg.
    pub fn source_idx_for(&self, orientation: Orientation) -> (r: Option<u32>)
        ensures
            r == (match orientation {
                Orientation::Forward => self.source_idx_forward,
                Orientation::Reverse => self.source_idx_reverse,
            }),
    {
        match orientation {
            Orientation::Forward => self.source_idx_forward,
            Orientation::Reverse => self.source_idx_reverse,
        }
    }

    /// Bytes sent by a side.
    pub fn bytes_for(&self, side: FlowSide) -> (n: u64)
        ensures
            n == (match side {
                FlowSide::Initiator => self.bytes_initiator,
                FlowSide::Responder => self.bytes_responder,
            }),
    {
        match side {
            FlowSide::Initiator => self.bytes_initiator,
            FlowSide::Responder => self.bytes_responder,
        }
    }

    /// Packets sent by a side.
    pub fn pkts_for(&self, side: FlowSide) -> (n: u64)
        ensures
            n == (match side {
                FlowSide::Initiator => self.packets_initiator,
                FlowSide::Responder => self.packets_responder,
            }),
    {
        match side {
            FlowSide::Initiator => self.packets_initiator,
            FlowSide::Responder => self.packets_responder,
        }
    }
}

/// TCP / flow lifecycle state.
#[derive(Debug, Clone, Copy, PartialEq, Eq, Structural)]
pub enum FlowState {
    SynSent,
    SynReceived,
    Established,
    FinWait,
    ClosingTcp,
    Active,
    Closed,
    Reset,
    Aborted,
}

impl FlowState {
    /// `Closed`, `Reset` and `Aborted` are terminal.
    pub fn is_terminal(self) -> (r: bool)
        ensures
            r == (self == FlowState::Closed || self == FlowState::Reset || self
                == FlowState::Aborted),
    {
        match self {
            FlowState::Closed | FlowState::Reset | FlowState::Aborted => true,
            _ => false,
        }
    }
}

/// Something unusual on a flow or in the tracker.
#[derive(Debug, Clone)]
pub enum AnomalyKind {
    BufferOverflow { side: FlowSide, bytes: u64, policy: OverflowPolicy },
    OutOfOrderSegment { side: FlowSide, count: u64 },
    FlowTableEvictionPressure { evicted_in_tick: u64, evicted_total: u64 },
    SessionParseError { side: FlowSide, reason: Option<String> },
    RetransmittedSegment { side: FlowSide, count: u64 },
    ReassemblerHighWatermark { side: FlowSide, bytes: u64, cap: u64, threshold_pct: u8 },
    TcpRexmitInconsistency { side: FlowSide, count: u64 },
    GlobalMemcapHit { bytes_in_flight: u64, cap: u64, policy: MemcapPolicy },
}

/// The stable slug of each anomaly kind.
pub open spec fn anomaly_slug(k: AnomalyKind) -> Seq<char> {
    match k {
        AnomalyKind::BufferOverflow { .. } => "buffer_overflow"@,
        AnomalyKind::OutOfOrderSegment { .. } => "ooo_segment"@,
        AnomalyKind::FlowTableEvictionPressure { .. } => "flow_table_eviction"@,
        AnomalyKind::SessionParseError { .. } => "parse_error"@,
        AnomalyKind::RetransmittedSegment { .. } => "retransmit"@,
        AnomalyKind::ReassemblerHighWatermark { .. } => "reassembler_high_watermark"@,
        AnomalyKind::TcpRexmitInconsistency { .. } => "tcp_rexmit_inconsistency"@,
        AnomalyKind::GlobalMemcapHit { .. } => "global_memcap_hit"@,
    }
}

/// How urgent an anomaly is.
#[derive(Debug, Clone, Copy, PartialEq, Eq, Structural, PartialOrd, Ord, Hash)]
pub enum Severity {
    Info,
    Warning,
    Error,
    /// Reserved: no anomaly kind defaults to it.
    Critical,
}

/// The severity of each anomaly kind.
pub open spec fn severity_of(k: AnomalyKind) -> Severity {
    match k {
        AnomalyKind::OutOfOrderSegment { .. } | AnomalyKind::RetransmittedSegment { .. } => {
            Severity::Info
        },
        AnomalyKind::ReassemblerHighWatermark { .. }
        | AnomalyKind::BufferOverflow { .. }
        | AnomalyKind::FlowTableEvictionPressure { .. }
        | AnomalyKind::GlobalMemcapHit { .. } => Severity::Warning,
        AnomalyKind::SessionParseError { .. } => Severity::Error,
        AnomalyKind::TcpRexmitInconsistency { .. } => Severity::Error,
    }
}

/// The lowercase name of each severity.
pub open spec fn severity_slug(s: Severity) -> Seq<char> {
    match s {
        Severity::Info => "info"@,
        Severity::Warning => "warning"@,
        Severity::Error => "error"@,
        Severity::Critical => "critical"@,
    }
}

impl Severity {
    /// Lowercase name of the severity.
    pub fn as_str(&self) -> (s: &'static str)
        ensures
            s@ == severity_slug(*self),
    {
        match self {
            Severity::Info => "info",
            Severity::Warning => "warning",
            Severity::Error => "error",
            Severity::Critical => "critical",
        }
    }
}

impl AnomalyKind {
    /// Stable slug of the anomaly kind, used as a metric label.
    pub fn short_kind(&self) -> (s: &'static str)
        ensures
            s@ == anomaly_slug(*self),
    {
        match self {
            AnomalyKind::BufferOverflow { .. } => "buffer_overflow",
            AnomalyKind::OutOfOrderSegment { .. } => "ooo_segment",
            AnomalyKind::FlowTableEvictionPressure { .. } => "flow_table_eviction",
            AnomalyKind::SessionParseError { .. } => "parse_error",
            AnomalyKind::RetransmittedSegment { .. } => "retransmit",
            AnomalyKind::ReassemblerHighWatermark { .. } => "reassembler_high_watermark",
            AnomalyKind::TcpRexmitInconsistency { .. } => "tcp_rexmit_inconsistency",
            AnomalyKind::GlobalMemcapHit { .. } => "global_memcap_hit",
        }
    }

    /// How urgent the anomaly is: retransmits and out-of-order segments
    /// are informational; overflow, high watermarks, eviction pressure
    /// and a global memcap hit (cap pressure) are warnings; parse errors
    /// and inconsistent retransmits are errors. No kind is critical.
    pub fn severity(&self) -> (s: Severity)
        ensures
            s == severity_of(*self),
            s != Severity::Critical,
    {
        match self {
            AnomalyKind::OutOfOrderSegment { .. } | AnomalyKind::RetransmittedSegment { .. } => {
                Severity::Info
            },
            AnomalyKind::ReassemblerHighWatermark { .. }
            | AnomalyKind::BufferOverflow { .. }
            | AnomalyKind::FlowTableEvictionPressure { .. }
            | AnomalyKind::GlobalMemcapHit { .. } => Severity::Warning,
            AnomalyKind::SessionParseError { .. } => Severity::Error,
            AnomalyKind::TcpRexmitInconsistency { .. } => Severity::Error,
        }
    }
}

/// An event from the flow tracker, over flow keys of type `K`.
#[derive(Debug, Clone)]
pub enum FlowEvent<K> {
    Started { key: K, side: FlowSide, orientation: Orientation, ts: Timestamp, l4: Option<L4Proto> },
    Packet { key: K, side: FlowSide, orientation: Orientation, len: usize, ts: Timestamp },
    Established { key: K, ts: Timestamp, l4: Option<L4Proto> },
    StateChange { key: K, from: FlowState, to: FlowState, ts: Timestamp },
    /// The flow ended; `history` is its Zeek-style history letters.
    Ended { key: K, reason: EndReason, stats: FlowStats, history: String, l4: Option<L4Proto> },
    FlowAnomaly { key: K, kind: AnomalyKind, ts: Timestamp },
    /// An anomaly of the tracker as a whole, not of one flow.
    TrackerAnomaly { kind: AnomalyKind, ts: Timestamp },
    Tick { key: K, stats: FlowStats, ts: Timestamp },
}

/// The flow key an event carries; a tracker anomaly has none.
pub open spec fn event_key<K>(e: FlowEvent<K>) -> Option<K> {
    match e {
        FlowEvent::Started { key, .. } => Some(key),
        FlowEvent::Packet { key, .. } => Some(key),
        FlowEvent::Established { key, .. } => Some(key),
        FlowEvent::StateChange { key, .. } => Some(key),
        FlowEvent::Ended { key, .. } => Some(key),
        FlowEvent::FlowAnomaly { key, .. } => Some(key),
        FlowEvent::Tick { key, .. } => Some(key),
        FlowEvent::TrackerAnomaly { .. } => None,
    }
}

/// The anomaly an event carries, if it is an anomaly.
pub open spec fn event_anomaly<K>(e: FlowEvent<K>) -> Option<AnomalyKind> {
    match e {
        FlowEvent::FlowAnomaly { kind, .. } => Some(kind),
        FlowEvent::TrackerAnomaly { kind, .. } => Some(kind),
        _ => None,
    }
}

impl<K> FlowEvent<K> {
    /// The flow key, for every event but a tracker anomaly.
    pub fn key(&self) -> (r: Option<&K>)
        ensures
            r is Some <==> event_key(*self) is Some,
            r matches Some(k) ==> event_key(*self) == Some(*k),
    {
        match self {
            FlowEvent::Started { key, .. } => Some(key),
            FlowEvent::Packet { key, .. } => Some(key),
            FlowEvent::Established { key, .. } => Some(key),
            FlowEvent::StateChange { key, .. } => Some(key),
            FlowEvent::Ended { key, .. } => Some(key),
            FlowEvent::FlowAnomaly { key, .. } => Some(key),
            FlowEvent::Tick { key, .. } => Some(key),
            FlowEvent::TrackerAnomaly { .. } => None,
        }
    }

    /// The anomaly kind of an anomaly event.
    pub fn anomaly_kind(&self) -> (r: Option<&AnomalyKind>)
        ensures
            r is Some <==> event_anomaly(*self) is Some,
            r matches Some(k) ==> event_anomaly(*self) == Some(*k),
    {
        match self {
            FlowEvent::FlowAnomaly { kind, .. } => Some(kind),
            FlowEvent::TrackerAnomaly { kind, .. } => Some(kind),
            _ => None,
        }
    }
}

} // verus!
