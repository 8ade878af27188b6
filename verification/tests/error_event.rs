use flowscope::error::{Error, ErrorCode, Module};
use flowscope::event::{
    AnomalyKind, EndReason, FlowEvent, FlowSide, FlowState, FlowStats, L4Proto, Orientation,
    Severity, Timestamp,
};

#[test]
fn error_carries_module_and_code() {
    let e = Error::parse(Module::Http, "bad request line");
    assert_eq!(e.module(), Module::Http);
    assert_eq!(e.code(), ErrorCode::Parse);
    assert!(e.is_recoverable());
    assert!(e.source().is_none());
}

#[test]
fn error_wraps_source() {
    let io = std::io::Error::other("disk gone");
    let e = Error::io(Module::Pcap, io);
    assert_eq!(e.module(), Module::Pcap);
    assert_eq!(e.code(), ErrorCode::Io);
    assert!(!e.is_recoverable());
    assert!(e.source().is_some());
}

#[test]
fn display_format() {
    let e = Error::parse(Module::Tls, "alert received");
    let s = e.to_string();
    assert!(s.contains("tls"));
    assert!(s.contains("parse"));
    assert!(s.contains("alert received"));
}

#[test]
fn source_chain_walks() {
    let io = std::io::Error::other("disk gone");
    let e = Error::io(Module::Pcap, io);
    let s = e.source().unwrap();
    assert!(s.contains("disk gone"));
}

#[test]
fn buffer_overflow_includes_cap() {
    let e = Error::buffer_overflow(Module::Http, 8192);
    assert!(e.to_string().contains("8192"));
}

#[test]
fn module_display_covers_all_variants() {
    assert_eq!(Module::Driver.to_string(), "driver");
    assert_eq!(Module::Emit.to_string(), "emit");
    assert_eq!(Module::Detect.to_string(), "detect");
    assert_eq!(Module::Aggregate.to_string(), "aggregate");
    assert_eq!(Module::Correlate.to_string(), "correlate");
    assert_eq!(Module::Http.to_string(), "http");
    assert_eq!(Module::Layers.to_string(), "layers");
}

#[test]
fn buffer_overflow_message_is_exact_and_recoverable() {
    let e = Error::buffer_overflow(Module::Http, 8192);
    assert_eq!(e.code(), ErrorCode::BufferOverflow);
    assert!(e.is_recoverable());
    assert_eq!(e.to_string(), "http: buffer-overflow: buffer exceeded cap=8192");
}

#[test]
fn parse_with_keeps_the_source_text() {
    let e = Error::parse_with(Module::Tls, "record", "short read".to_string());
    assert_eq!(e.source().map(|s| s.as_str()), Some("short read"));
    assert_eq!(e.code(), ErrorCode::Parse);
}

#[test]
fn flow_state_terminal() {
    assert!(FlowState::Closed.is_terminal());
    assert!(FlowState::Reset.is_terminal());
    assert!(FlowState::Aborted.is_terminal());
    assert!(!FlowState::Active.is_terminal());
    assert!(!FlowState::Established.is_terminal());
    assert!(!FlowState::SynSent.is_terminal());
}

#[test]
fn flow_event_key_borrow() {
    let evt: FlowEvent<u32> = FlowEvent::Packet {
        key: 7,
        side: FlowSide::Initiator,
        orientation: Orientation::Forward,
        len: 100,
        ts: Timestamp::default(),
    };
    assert_eq!(evt.key().copied(), Some(7));
}

#[test]
fn flow_event_key_returns_none_for_global_anomaly() {
    let evt: FlowEvent<u32> = FlowEvent::TrackerAnomaly {
        kind: AnomalyKind::FlowTableEvictionPressure { evicted_in_tick: 1, evicted_total: 42 },
        ts: Timestamp::default(),
    };
    assert!(evt.key().is_none());
    assert!(evt.anomaly_kind().is_some());
}

#[test]
fn flow_event_key_returns_some_for_per_flow_anomaly() {
    let evt: FlowEvent<u32> = FlowEvent::FlowAnomaly {
        key: 7,
        kind: AnomalyKind::OutOfOrderSegment { side: FlowSide::Initiator, count: 3 },
        ts: Timestamp::default(),
    };
    assert_eq!(evt.key().copied(), Some(7));
}

fn skewed_stats(init_bytes: u64, init_pkts: u64, resp_bytes: u64, resp_pkts: u64) -> FlowStats {
    FlowStats {
        packets_initiator: init_pkts,
        packets_responder: resp_pkts,
        bytes_initiator: init_bytes,
        bytes_responder: resp_bytes,
        ..FlowStats::default()
    }
}

#[test]
fn bytes_for_returns_per_side_count() {
    let s = skewed_stats(100, 5, 200, 8);
    assert_eq!(s.bytes_for(FlowSide::Initiator), 100);
    assert_eq!(s.bytes_for(FlowSide::Responder), 200);
}

#[test]
fn pkts_for_returns_per_side_count() {
    let s = skewed_stats(100, 5, 200, 8);
    assert_eq!(s.pkts_for(FlowSide::Initiator), 5);
    assert_eq!(s.pkts_for(FlowSide::Responder), 8);
}

#[test]
fn totals_add_both_sides() {
    let s = skewed_stats(100, 5, 200, 8);
    assert_eq!(s.total_bytes(), 300);
    assert_eq!(s.total_packets(), 13);
}

#[test]
fn duration_spans_first_to_last_packet() {
    let mut s = FlowStats::default();
    s.started = Timestamp { sec: 10, nsec: 500 };
    s.last_seen = Timestamp { sec: 12, nsec: 100 };
    assert_eq!(s.duration_nanos(), 1_999_999_600);
    assert_eq!(s.duration(), std::time::Duration::from_nanos(1_999_999_600));
}

#[test]
fn anomaly_labels_and_severity() {
    let k = AnomalyKind::GlobalMemcapHit {
        bytes_in_flight: 1,
        cap: 2,
        policy: Default::default(),
    };
    assert_eq!(k.short_kind(), "global_memcap_hit");
    // Cap pressure is a warning: no kind defaults to critical.
    assert_eq!(k.severity(), Severity::Warning);
    assert_eq!(k.severity().as_str(), "warning");
    assert_eq!(Severity::Critical.as_str(), "critical");
    let r = AnomalyKind::RetransmittedSegment { side: FlowSide::Responder, count: 1 };
    assert_eq!(r.severity(), Severity::Info);
    assert_eq!(EndReason::Fin.as_str(), "fin");
    assert_eq!(Orientation::Forward.flipped(), Orientation::Reverse);
}

#[test]
fn canonical_name_returns_lowercase_slug_for_every_l4proto() {
    assert_eq!(L4Proto::Tcp.canonical_name(), "tcp");
    assert_eq!(L4Proto::Udp.canonical_name(), "udp");
    assert_eq!(L4Proto::Icmp.canonical_name(), "icmp");
    assert_eq!(L4Proto::IcmpV6.canonical_name(), "icmp6");
    assert_eq!(L4Proto::Sctp.canonical_name(), "sctp");
}

#[test]
fn canonical_name_returns_other_for_other_variant() {
    assert_eq!(L4Proto::Other(132).canonical_name(), "other");
}
