use flowscope::event::FlowSide;
use flowscope::http2::frame::{ACK, END_HEADERS, END_STREAM, PADDED};
use flowscope::http2::stream::{Http2Config, Http2Event, Http2Parser, PREFACE};
use flowscope::http2::Http2Error;

/// Build a frame with the given type, flags, stream, payload.
fn frame(kind: u8, flags: u8, stream: u32, payload: &[u8]) -> Vec<u8> {
    let mut v = Vec::new();
    let len = payload.len() as u32;
    v.extend_from_slice(&[(len >> 16) as u8, (len >> 8) as u8, len as u8]);
    v.push(kind);
    v.push(flags);
    v.extend_from_slice(&stream.to_be_bytes());
    v.extend_from_slice(payload);
    v
}

fn started() -> Http2Parser {
    let mut p = Http2Parser::new();
    p.push(FlowSide::Initiator, &PREFACE);
    p
}

fn feed(p: &mut Http2Parser, dir: FlowSide, bytes: Vec<u8>) -> Vec<Http2Event> {
    p.push(dir, &bytes);
    let mut out = Vec::new();
    while let Some(ev) = p.next_event() {
        out.push(ev);
    }
    out
}

/// A literal-with-indexing field: name and value, uncompressed.
fn literal(name: &str, value: &str) -> Vec<u8> {
    let mut v = vec![0x40, name.len() as u8];
    v.extend_from_slice(name.as_bytes());
    v.push(value.len() as u8);
    v.extend_from_slice(value.as_bytes());
    v
}

#[test]
fn a_request_head_carries_its_pseudo_headers() {
    let mut p = started();
    let mut block = vec![0x82, 0x87]; // :method GET, :scheme https
    block.extend(literal(":authority", "api.example.com"));
    block.extend(literal(":path", "/v1/orders"));
    let evs = feed(
        &mut p,
        FlowSide::Initiator,
        frame(0x1, END_HEADERS, 1, &block),
    );
    match &evs[0] {
        Http2Event::Head(h) => {
            assert_eq!(h.stream_id, 1);
            assert_eq!(h.method(), Some("GET"));
            assert_eq!(h.scheme(), Some("https"));
            assert_eq!(h.authority(), Some("api.example.com"));
            assert_eq!(h.path(), Some("/v1/orders"));
            assert!(!h.end_stream);
        }
        other => panic!("expected a head, got {other:?}"),
    }
}

#[test]
fn a_field_block_reassembles_across_continuation() {
    let mut p = started();
    let mut block = vec![0x82];
    block.extend(literal(":authority", "split.example"));
    let (a, b) = block.split_at(2);

    // HEADERS without END_HEADERS, then CONTINUATION with it.
    let mut wire = frame(0x1, 0, 1, a);
    wire.extend(frame(0x9, END_HEADERS, 1, b));
    let evs = feed(&mut p, FlowSide::Initiator, wire);
    match &evs[0] {
        Http2Event::Head(h) => assert_eq!(h.authority(), Some("split.example")),
        other => panic!("expected a head, got {other:?}"),
    }
}

#[test]
fn a_frame_interleaved_into_a_field_block_is_refused() {
    // §6.10: nothing may come between HEADERS and its
    // CONTINUATION on that stream. Allowing it would let a sender
    // desynchronise two implementations' idea of the block.
    let mut p = started();
    let mut wire = frame(0x1, 0, 1, &[0x82]);
    wire.extend(frame(0x0, 0, 1, b"data"));
    feed(&mut p, FlowSide::Initiator, wire);
    assert_eq!(p.error(), Some(Http2Error::InterleavedContinuation));
}

#[test]
fn a_continuation_with_no_block_open_is_refused() {
    let mut p = started();
    feed(
        &mut p,
        FlowSide::Initiator,
        frame(0x9, END_HEADERS, 1, &[0x82]),
    );
    assert_eq!(p.error(), Some(Http2Error::UnexpectedContinuation));
}

#[test]
fn data_is_reported_and_end_stream_completes() {
    let mut p = started();
    let mut wire = frame(0x1, END_HEADERS, 1, &[0x82]);
    wire.extend(frame(0x0, 0, 1, b"hello"));
    wire.extend(frame(0x0, END_STREAM, 1, b" world"));
    let evs = feed(&mut p, FlowSide::Initiator, wire);

    let body: Vec<u8> = evs
        .iter()
        .filter_map(|e| match e {
            Http2Event::Body { data, .. } => Some(data.to_vec()),
            _ => None,
        })
        .collect::<Vec<_>>()
        .concat();
    assert_eq!(body, b"hello world");
    assert!(matches!(
        evs.last(),
        Some(Http2Event::End { stream_id: 1, .. })
    ));
}

#[test]
fn a_second_field_block_on_a_stream_is_trailers() {
    // Headers, data, then another block — that is where
    // grpc-status lives.
    let mut p = started();
    let mut wire = frame(0x1, END_HEADERS, 1, &[0x88]); // :status 200
    wire.extend(frame(0x0, 0, 1, b"body"));
    let mut trailer = Vec::new();
    trailer.extend(literal("grpc-status", "0"));
    wire.extend(frame(
        0x1,
        END_HEADERS | END_STREAM,
        1,
        &trailer,
    ));
    let evs = feed(&mut p, FlowSide::Responder, wire);

    let trailers = evs.iter().find_map(|e| match e {
        Http2Event::Trailers { fields, .. } => Some(fields.clone()),
        _ => None,
    });
    let t = trailers.expect("trailers must be reported separately from the head");
    assert_eq!(t[0].0.as_slice(), b"grpc-status");
    assert_eq!(t[0].1.as_slice(), b"0");
}

#[test]
fn a_trailers_only_response_is_a_head_not_trailers() {
    // gRPC's Trailers-Only: one HEADERS with END_STREAM and no
    // preceding block, so it is the head of the stream.
    let mut p = started();
    let mut block = vec![0x88];
    block.extend(literal("grpc-status", "5"));
    let evs = feed(
        &mut p,
        FlowSide::Responder,
        frame(0x1, END_HEADERS | END_STREAM, 3, &block),
    );
    match &evs[0] {
        Http2Event::Head(h) => {
            assert!(h.end_stream);
            assert_eq!(h.field("grpc-status"), Some(&b"5"[..]));
        }
        other => panic!("expected a head, got {other:?}"),
    }
}

#[test]
fn interleaved_streams_keep_their_own_state() {
    let mut p = started();
    let mut wire = frame(0x1, END_HEADERS, 1, &[0x82]);
    wire.extend(frame(0x1, END_HEADERS, 3, &[0x83])); // :method POST
    wire.extend(frame(0x0, 0, 1, b"one"));
    wire.extend(frame(0x0, 0, 3, b"three"));
    let evs = feed(&mut p, FlowSide::Initiator, wire);

    let for_stream = |id: u32| -> Vec<u8> {
        evs.iter()
            .filter_map(|e| match e {
                Http2Event::Body {
                    stream_id, data, ..
                } if *stream_id == id => Some(data.to_vec()),
                _ => None,
            })
            .collect::<Vec<_>>()
            .concat()
    };
    assert_eq!(for_stream(1), b"one");
    assert_eq!(for_stream(3), b"three");
}

#[test]
fn a_push_promise_decodes_and_is_keyed_to_the_promised_stream() {
    // Regression: the four promised-id octets precede the field
    // block. Feeding them to HPACK killed the connection and
    // would have corrupted the dynamic table for every later
    // block — so a server that pushes broke everything after it.
    let mut p = started();
    let _ = feed(
        &mut p,
        FlowSide::Initiator,
        frame(0x1, END_HEADERS, 1, &[0x82]),
    );

    let mut payload = 2u32.to_be_bytes().to_vec();
    payload.push(0x84); // :path /
    payload.extend(literal(":authority", "push.example"));
    let evs = feed(
        &mut p,
        FlowSide::Responder,
        frame(0x5, END_HEADERS, 1, &payload),
    );

    assert!(
        !p.is_failed(),
        "a valid PUSH_PROMISE must not fail the connection"
    );
    match &evs[0] {
        Http2Event::Head(h) => {
            assert_eq!(h.stream_id, 2, "the block describes the promised stream");
            assert_eq!(h.path(), Some("/"));
            assert_eq!(h.authority(), Some("push.example"));
        }
        other => panic!("expected a head, got {other:?}"),
    }
}

#[test]
fn a_push_promise_does_not_corrupt_later_blocks() {
    // The real damage from the bug above: HPACK state is shared,
    // so a mis-decoded promise poisons every block after it.
    let mut p = started();
    let mut payload = 2u32.to_be_bytes().to_vec();
    payload.extend(literal(":authority", "shared.example"));
    let _ = feed(
        &mut p,
        FlowSide::Responder,
        frame(0x5, END_HEADERS, 1, &payload),
    );
    // Index 62 is the entry the promise just inserted.
    let evs = feed(
        &mut p,
        FlowSide::Responder,
        frame(0x1, END_HEADERS, 3, &[0x88, 0xbe]),
    );
    assert!(!p.is_failed());
    match &evs[0] {
        Http2Event::Head(h) => assert_eq!(h.authority(), Some("shared.example")),
        other => panic!("expected a head, got {other:?}"),
    }
}

#[test]
fn sequential_streams_beyond_the_concurrency_cap_keep_working() {
    // A completed stream must free its slot. Otherwise a long
    // keep-alive connection doing ordinary sequential requests
    // would hit TooManyStreams and be killed — a false positive
    // on entirely normal traffic.
    let mut p = Http2Parser::with_config(Http2Config::default().with_max_concurrent_streams(4));
    p.push(FlowSide::Initiator, &PREFACE);
    for i in 0..40u32 {
        let id = i * 2 + 1;
        let _ = feed(
            &mut p,
            FlowSide::Initiator,
            frame(0x1, END_HEADERS | END_STREAM, id, &[0x82]),
        );
        let _ = feed(
            &mut p,
            FlowSide::Responder,
            frame(0x1, END_HEADERS | END_STREAM, id, &[0x88]),
        );
        assert!(
            !p.is_failed(),
            "sequential streams must not exhaust the cap"
        );
        assert!(p.tracked_streams() <= 4, "tracked {}", p.tracked_streams());
    }
}

#[test]
fn a_reset_stream_frees_its_slot() {
    let mut p = Http2Parser::with_config(Http2Config::default().with_max_concurrent_streams(4));
    p.push(FlowSide::Initiator, &PREFACE);
    for i in 0..40u32 {
        let id = i * 2 + 1;
        let _ = feed(
            &mut p,
            FlowSide::Initiator,
            frame(0x1, END_HEADERS, id, &[0x82]),
        );
        let _ = feed(
            &mut p,
            FlowSide::Initiator,
            frame(0x3, 0, id, &8u32.to_be_bytes()),
        );
        assert!(!p.is_failed(), "cancelled streams must free their slots");
    }
}

#[test]
fn rst_stream_and_goaway_are_reported() {
    let mut p = started();
    let mut wire = frame(0x1, END_HEADERS, 1, &[0x82]);
    wire.extend(frame(0x3, 0, 1, &8u32.to_be_bytes())); // CANCEL
    wire.extend(frame(0x7, 0, 0, &[0, 0, 0, 1, 0, 0, 0, 0]));
    let evs = feed(&mut p, FlowSide::Initiator, wire);
    assert!(evs.iter().any(|e| matches!(
        e,
        Http2Event::StreamReset {
            stream_id: 1,
            error_code: 8
        }
    )));
    assert!(evs.iter().any(|e| matches!(
        e,
        Http2Event::GoAway {
            last_stream_id: 1,
            ..
        }
    )));
}

#[test]
fn settings_narrow_the_peers_limits_but_cannot_widen_ours() {
    let mut p = Http2Parser::with_config(Http2Config::default().with_max_frame_size(16_384));
    p.push(FlowSide::Initiator, &PREFACE);
    // The client announces a 1 MiB max frame size for what the
    // server sends. Our own ceiling must still hold.
    let payload = [0x00, 0x05, 0x00, 0x10, 0x00, 0x00];
    feed(&mut p, FlowSide::Initiator, frame(0x4, 0, 0, &payload));
    let mut big = vec![0x00, 0x40, 0x01, 0x0, 0x0, 0, 0, 0, 1];
    big.extend(std::iter::repeat_n(0u8, 16_385));
    feed(&mut p, FlowSide::Responder, big);
    assert_eq!(p.error(), Some(Http2Error::FrameTooLarge));
}

#[test]
fn a_bad_preface_fails_immediately() {
    let mut p = Http2Parser::new();
    p.push(
        FlowSide::Initiator,
        b"GET / HTTP/1.1\r\n",
    );
    assert_eq!(p.error(), Some(Http2Error::BadPreface));
}

#[test]
fn a_partial_preface_waits() {
    let mut p = Http2Parser::new();
    p.push(FlowSide::Initiator, &PREFACE[..10]);
    assert!(!p.is_failed());
    assert!(p.next_event().is_none());
}

#[test]
fn stream_split_feeds_produce_the_same_events() {
    let mut block = vec![0x82, 0x87];
    block.extend(literal(":authority", "drip.example"));
    block.extend(literal(":path", "/x"));
    let mut wire = PREFACE.to_vec();
    wire.extend(frame(0x1, END_HEADERS, 1, &block));
    wire.extend(frame(0x0, END_STREAM, 1, b"payload"));

    let describe = |evs: &[Http2Event]| -> Vec<String> {
        evs.iter()
            .map(|e| match e {
                Http2Event::Head(h) => format!("head {:?} {:?}", h.authority(), h.path()),
                Http2Event::Body { data, .. } => {
                    format!("body {}", String::from_utf8_lossy(data))
                }
                Http2Event::Trailers { .. } => "trailers".into(),
                Http2Event::End { stream_id, .. } => format!("end {stream_id}"),
                other => format!("{other:?}"),
            })
            .collect()
    };

    let mut whole = Http2Parser::new();
    let a = feed(&mut whole, FlowSide::Initiator, wire.clone());

    let mut drip = Http2Parser::new();
    let mut b = Vec::new();
    for byte in &wire {
        b.extend(feed(&mut drip, FlowSide::Initiator, vec![*byte]));
    }
    assert_eq!(describe(&a), describe(&b));
    assert!(!describe(&a).is_empty());
}

#[test]
fn too_many_streams_is_refused() {
    let mut p = Http2Parser::with_config(Http2Config::default().with_max_concurrent_streams(4));
    p.push(FlowSide::Initiator, &PREFACE);
    for i in 0..32u32 {
        let id = i * 2 + 1;
        feed(
            &mut p,
            FlowSide::Initiator,
            frame(0x1, END_HEADERS, id, &[0x82]),
        );
        if p.is_failed() {
            assert_eq!(p.error(), Some(Http2Error::TooManyStreams));
            return;
        }
    }
    panic!("unbounded stream tracking must be refused");
}

#[test]
fn an_oversized_field_block_is_refused() {
    let mut p =
        Http2Parser::with_config(Http2Config::default().with_max_header_block_bytes(256));
    p.push(FlowSide::Initiator, &PREFACE);
    // A block built up across CONTINUATIONs past the cap.
    let chunk = vec![0x82u8; 200];
    let mut wire = frame(0x1, 0, 1, &chunk);
    wire.extend(frame(0x9, 0, 1, &chunk));
    feed(&mut p, FlowSide::Initiator, wire);
    assert_eq!(p.error(), Some(Http2Error::HeaderListTooLong));
}

#[test]
fn a_failed_connection_accepts_nothing_further() {
    let mut p = Http2Parser::new();
    p.push(FlowSide::Initiator, b"not h2");
    assert!(p.is_failed());
    assert_eq!(p.push(FlowSide::Initiator, &PREFACE), 0);
}

#[test]
fn a_frame_that_could_never_fit_the_buffer_is_refused_at_its_header() {
    // The wedge: `max_frame_size` above `max_buffered_bytes`
    // means a frame the parser accepts but can never assemble. It
    // used to buffer to the cap and then refuse every byte for
    // the life of the connection, reporting nothing — and a
    // caller that cannot see the accepted count, like the
    // `SessionParser` adapter, would read that as silence.
    let mut p = Http2Parser::with_config(Http2Config::default().with_max_buffered_bytes(4096));
    p.push(FlowSide::Initiator, &PREFACE);
    // A 64 KiB DATA frame: legal under the 1 MiB default
    // `max_frame_size`, impossible under a 4 KiB buffer.
    let mut wire = vec![0x00, 0xff, 0xff, 0x0, 0x0, 0, 0, 0, 1];
    wire.extend(std::iter::repeat_n(0u8, 8192));
    p.push(FlowSide::Initiator, &wire);
    assert_eq!(p.error(), Some(Http2Error::FrameTooLarge));
}

#[test]
fn backpressure_applies_when_a_frame_spans_offers() {
    // A short count is still the signal for a frame that *can*
    // fit but has not all arrived. Backpressure is not a failure.
    let mut p = Http2Parser::with_config(
        Http2Config::default()
            .with_max_buffered_bytes(8192)
            .with_max_frame_size(4096),
    );
    p.push(FlowSide::Initiator, &PREFACE);
    // A 3500-byte DATA frame, delivered in two offers with far
    // more trailing data than the buffer can take at once.
    let mut wire = vec![0x00, 0x0d, 0xac, 0x0, 0x0, 0, 0, 0, 1];
    wire.extend(std::iter::repeat_n(0u8, 3500));
    wire.extend(std::iter::repeat_n(0u8, 16_384));
    let accepted = p.push(FlowSide::Initiator, &wire.clone());
    assert!(accepted < wire.len(), "a full buffer must short-count");
    assert!(!p.is_failed(), "backpressure is not a failure");
}

#[test]
fn a_buffer_cap_below_the_preface_fails_rather_than_stalls() {
    // The one path cap composition cannot rescue: a cap so small
    // that even the 24-byte preface cannot be held. This is the
    // `BufferOverflow` guard, and the only way that variant is
    // ever constructed.
    let mut p = Http2Parser::with_config(Http2Config::default().with_max_buffered_bytes(8));
    p.push(FlowSide::Initiator, &PREFACE[..8]);
    p.push(FlowSide::Initiator, &PREFACE[8..]);
    assert_eq!(p.error(), Some(Http2Error::BufferOverflow));
}

#[test]
fn never_panics_on_arbitrary_bytes() {
    for seed in 0..64u8 {
        let mut p = Http2Parser::new();
        p.push(FlowSide::Initiator, &PREFACE);
        let bytes: Vec<u8> = (0..256u16)
            .map(|i| (i as u8).wrapping_mul(seed).wrapping_add(7))
            .collect();
        p.push(FlowSide::Initiator, &bytes.clone());
        p.push(FlowSide::Responder, &bytes);
        while p.next_event().is_some() {}
    }
}

#[test]
fn events_come_out_in_order_and_are_taken_once() {
    let mut p = started();
    let mut wire = frame(0x1, END_HEADERS, 1, &[0x82]);
    wire.extend(frame(0x0, PADDED | END_STREAM, 1, &[1, b'x', 0]));
    wire.extend(frame(0x4, ACK, 0, &[]));
    wire.extend(frame(0x6, 0, 0, &[0; 8]));
    p.push(FlowSide::Initiator, &wire);
    assert!(matches!(p.next_event(), Some(Http2Event::Head(_))));
    assert!(matches!(p.next_event(), Some(Http2Event::Body { stream_id: 1, ref data, .. }) if data == b"x"));
    assert!(matches!(p.next_event(), Some(Http2Event::End { stream_id: 1, dir: FlowSide::Initiator })));
    assert!(p.next_event().is_none());
    assert_eq!(p.tracked_streams(), 1);
    assert_eq!(p.buffered(FlowSide::Initiator), 0);
}

#[test]
fn a_server_end_stream_frees_the_stream() {
    let mut p = started();
    feed(&mut p, FlowSide::Initiator, frame(0x1, END_HEADERS | END_STREAM, 1, &[0x82]));
    assert_eq!(p.tracked_streams(), 1);
    feed(&mut p, FlowSide::Responder, frame(0x1, END_HEADERS | END_STREAM, 1, &[0x88]));
    assert_eq!(p.tracked_streams(), 0);
}

#[test]
fn a_short_rst_stream_is_malformed() {
    let mut p = started();
    feed(&mut p, FlowSide::Initiator, frame(0x3, 0, 1, &[0, 0]));
    assert_eq!(p.error(), Some(Http2Error::MalformedFrame));
    assert_eq!(p.buffered(FlowSide::Initiator), 0);
    assert_eq!(p.push(FlowSide::Responder, &[0]), 0);
}
