use flowscope::emit::csv::{csv_header, csv_row, quote, CsvRow};
use flowscope::emit::eve::default_severity_numeric;
use flowscope::emit::zeek::{zeek_header, zeek_line, zeek_uid};
use flowscope::emit::{CsvOptions, NdjsonOptions, ZeekOptions};
use flowscope::event::{AnomalyKind, EndReason, FlowEvent, FlowSide, FlowState, FlowStats, Orientation, Severity, Timestamp};

#[test]
fn quote_passthrough_when_no_special_chars() {
    assert_eq!(quote("plain", ','), "plain");
    assert_eq!(quote("10.0.0.1", ','), "10.0.0.1");
}

#[test]
fn quote_wraps_when_separator_in_field() {
    assert_eq!(quote("a,b", ','), "\"a,b\"");
}

#[test]
fn quote_doubles_internal_quotes() {
    assert_eq!(quote("hi \"there\"", ','), "\"hi \"\"there\"\"\"");
}

#[test]
fn quote_wraps_when_newline_or_cr() {
    assert_eq!(quote("a\nb", ','), "\"a\nb\"");
    assert_eq!(quote("a\rb", ','), "\"a\rb\"");
}

#[test]
fn quote_respects_tab_separator() {
    assert_eq!(quote("a\tb", '\t'), "\"a\tb\"");
    assert_eq!(quote("a,b", '\t'), "a,b");
}

#[test]
fn quote_keeps_non_ascii_and_empty_fields() {
    assert_eq!(quote("", ','), "");
    assert_eq!(quote("é,ü", ','), "\"é,ü\"");
}

#[test]
fn csv_separator_follows_the_option() {
    let mut o = CsvOptions::default();
    assert_eq!(o.sep(), ',');
    o.tab_separated = true;
    assert_eq!(o.sep(), '\t');
}

#[test]
fn default_severity_mapping_matches_suricata_convention() {
    assert_eq!(default_severity_numeric(Severity::Critical), 1);
    assert_eq!(default_severity_numeric(Severity::Error), 2);
    assert_eq!(default_severity_numeric(Severity::Warning), 3);
    assert_eq!(default_severity_numeric(Severity::Info), 4);
}

#[test]
fn zeek_uids_are_prefix_and_sixteen_hex_digits() {
    assert_eq!(zeek_uid("C", 1), "C0000000000000001");
    assert_eq!(zeek_uid("C", 0xdead_beef), "C00000000deadbeef");
    assert_eq!(zeek_uid("X", u64::MAX), "Xffffffffffffffff");
    assert_eq!(zeek_uid("C", 1), format!("C{:016x}", 1u64));
    let o = ZeekOptions::default();
    assert!(o.emit_headers);
    assert_eq!(o.uid_prefix, "C");
}

#[test]
fn ndjson_filter_follows_the_options() {
    let ts = Timestamp::default();
    let ended: FlowEvent<u32> = FlowEvent::Ended {
        key: 1,
        reason: EndReason::Fin,
        stats: FlowStats::default(),
        history: String::new(),
        l4: None,
    };
    let started: FlowEvent<u32> = FlowEvent::Started {
        key: 1,
        side: FlowSide::Initiator,
        orientation: Orientation::Forward,
        ts,
        l4: None,
    };
    let packet: FlowEvent<u32> =
        FlowEvent::Packet { key: 1, side: FlowSide::Initiator, orientation: Orientation::Forward, len: 60, ts };
    let change: FlowEvent<u32> = FlowEvent::StateChange { key: 1, from: FlowState::SynSent, to: FlowState::Established, ts };
    let anomaly: FlowEvent<u32> =
        FlowEvent::TrackerAnomaly { kind: AnomalyKind::FlowTableEvictionPressure { evicted_in_tick: 1, evicted_total: 1 }, ts };

    let d = NdjsonOptions::default_anomalies_on();
    assert!(d.should_emit(&ended));
    assert!(d.should_emit(&anomaly));
    assert!(!d.should_emit(&started));
    assert!(!d.should_emit(&packet));
    assert!(!d.should_emit(&change));

    let quiet = NdjsonOptions::default();
    assert!(quiet.should_emit(&ended));
    assert!(!quiet.should_emit(&anomaly));

    let all = NdjsonOptions {
        pretty: false,
        include_packets: true,
        include_started: true,
        include_anomalies: true,
        include_established: true,
        include_ticks: true,
    };
    assert!(all.should_emit(&started) && all.should_emit(&packet));
    assert!(!all.should_emit(&change), "state changes are never written");
}

#[test]
fn csv_header_and_rows() {
    let mut o = CsvOptions::default();
    assert!(csv_header(&o).starts_with("start_sec,end_sec,duration_sec,proto,"));
    assert!(csv_header(&o).ends_with("retransmits_resp,end_reason\n"));
    let mut stats = FlowStats::default();
    stats.packets_initiator = 3;
    stats.bytes_responder = 1500;
    let row = csv_row(&o, CsvRow::Ended, "1.000000", "2.500000", "1.500000", "tcp", "10.0.0.1", 40000,
        "10.0.0.2", 80, &stats, EndReason::Fin);
    assert_eq!(row, "1.000000,2.500000,1.500000,tcp,10.0.0.1,40000,10.0.0.2,80,3,0,0,1500,0,0,fin\n");
    o.emit_started = true;
    o.tab_separated = true;
    assert!(csv_header(&o).starts_with("flow_event_kind\tstart_sec\t"));
    let started = csv_row(&o, CsvRow::Started, "1.000000", "x", "y", "udp", "a,b", 53, "c", 53,
        &stats, EndReason::Rst);
    assert_eq!(started, "started\t1.000000\t1.000000\t0.000000\tudp\ta,b\t53\tc\t53\t0\t0\t0\t0\t0\t0\t\n");
    let ended = csv_row(&o, CsvRow::Ended, "1", "2", "1", "tcp", "a\tb", 1, "c", 2, &stats, EndReason::Rst);
    assert!(ended.starts_with("ended\t1\t2\t1\ttcp\t\"a\tb\"\t1\t"));
    assert!(ended.ends_with("\trst\n"));
}

#[test]
fn zeek_preamble_and_line() {
    assert!(zeek_header().starts_with("#separator \\x09\n#set_separator\t,\n"));
    assert!(zeek_header().contains("#fields\tts\tuid\tid.orig_h"));
    let mut stats = FlowStats::default();
    stats.bytes_initiator = 10;
    stats.packets_responder = 2;
    let line = zeek_line("1.000000", "Cabc", "10.0.0.1", 1234, "10.0.0.2", 80, "tcp", "0.500000",
        &stats, EndReason::Fin, "ShAF");
    assert_eq!(line, "1.000000\tCabc\t10.0.0.1\t1234\t10.0.0.2\t80\ttcp\t0.500000\t10\t0\tSF\tShAF\t0\t2\n");
}
