use flowscope::event::FlowSide;
use flowscope::http2::frame::{
    parse_frame, parse_settings, write_headers, FrameKind, END_HEADERS, END_STREAM,
    FRAME_HEADER_LEN, PADDED, PRIORITY,
};
use flowscope::http2::grpc::{grpc_call, grpc_status, grpc_status_of, is_grpc_content_type, GrpcCall};
use flowscope::http2::hpack::decode_int;
use flowscope::http2::hpack_encode::{default_sensitivity, encode_int, HeaderSensitivity};
use flowscope::http2::huffman::{code_of, decode, SYMBOL_COUNT};
use flowscope::http2::stream::{Http2Config, StreamHead};
use flowscope::http2::Http2Error;

fn read_back(wire: &[u8]) -> Vec<(FrameKind, u8, u32, Vec<u8>)> {
    let mut out = Vec::new();
    let mut at = 0usize;
    while at < wire.len() {
        let (f, consumed) = parse_frame(&wire[at..], u32::MAX).expect("parses").expect("complete");
        out.push((f.kind, f.flags, f.stream_id, f.payload.clone()));
        at += consumed;
    }
    out
}

fn frame_bytes(kind: u8, flags: u8, stream: u32, payload: &[u8]) -> Vec<u8> {
    let mut v = Vec::new();
    let len = payload.len() as u32;
    v.extend_from_slice(&[(len >> 16) as u8, (len >> 8) as u8, len as u8]);
    v.push(kind);
    v.push(flags);
    v.extend_from_slice(&stream.to_be_bytes());
    v.extend_from_slice(payload);
    v
}

#[test]
fn write_headers_round_trips_through_the_parser() {
    let wire = write_headers(1, b"block-bytes", true, 16_384).unwrap();
    let frames = read_back(&wire);
    assert_eq!(frames.len(), 1);
    let (kind, fl, id, payload) = &frames[0];
    assert_eq!(*kind, FrameKind::Headers);
    assert_eq!(*id, 1);
    assert_eq!(fl & END_HEADERS, END_HEADERS);
    assert_eq!(fl & END_STREAM, END_STREAM);
    assert_eq!(payload, b"block-bytes");
}

#[test]
fn a_block_over_the_frame_size_continues() {
    let max = 16_384usize;
    let block = vec![0xabu8; max * 2 + 1];
    let wire = write_headers(7, &block, false, max as u32).unwrap();
    let frames = read_back(&wire);
    assert_eq!(frames.len(), 3, "one HEADERS plus two CONTINUATION");
    assert_eq!(frames[0].0, FrameKind::Headers);
    assert_eq!(frames[1].0, FrameKind::Continuation);
    assert_eq!(frames[2].0, FrameKind::Continuation);
    assert_eq!(frames[0].1 & END_HEADERS, 0);
    assert_eq!(frames[1].1 & END_HEADERS, 0);
    assert_eq!(frames[2].1 & END_HEADERS, END_HEADERS);
    assert!(frames.iter().all(|f| f.1 & END_STREAM == 0));
    assert!(frames.iter().all(|f| f.2 == 7), "all on the same stream");
    let rejoined: Vec<u8> = frames.iter().flat_map(|f| f.3.clone()).collect();
    assert_eq!(rejoined, block, "the block survives the split");
    assert_eq!(frames[2].3.len(), 1, "the remainder is its own frame");
}

#[test]
fn end_stream_rides_only_the_first_frame() {
    let block = vec![0u8; 16_385];
    let wire = write_headers(3, &block, true, 16_384).unwrap();
    let frames = read_back(&wire);
    assert_eq!(frames.len(), 2);
    assert_eq!(frames[0].1 & END_STREAM, END_STREAM);
    assert_eq!(frames[1].1 & END_STREAM, 0);
}

#[test]
fn an_empty_block_still_produces_one_frame() {
    let frames = read_back(&write_headers(1, b"", false, 16_384).unwrap());
    assert_eq!(frames.len(), 1);
    assert_eq!(frames[0].0, FrameKind::Headers);
    assert!(frames[0].3.is_empty());
}

#[test]
fn stream_zero_and_the_reserved_bit_are_refused() {
    assert_eq!(
        write_headers(0, b"x", false, 16_384),
        Err(Http2Error::InvalidStreamId),
        "a field block never belongs to the connection stream"
    );
    assert_eq!(write_headers(0x8000_0000, b"x", false, 16_384), Err(Http2Error::InvalidStreamId));
}

#[test]
fn an_out_of_range_frame_size_is_clamped_not_hung() {
    let frames = read_back(&write_headers(1, &[0u8; 100], false, 0).unwrap());
    assert_eq!(frames.len(), 1, "clamped up to the 16 KiB floor");
    let huge = write_headers(1, &[0u8; 100], false, u32::MAX).unwrap();
    assert_eq!(read_back(&huge).len(), 1);
}

#[test]
fn parses_a_minimal_frame() {
    let buf = frame_bytes(0x1, END_HEADERS, 1, b"abc");
    let (f, used) = parse_frame(&buf, 16_384).unwrap().unwrap();
    assert_eq!(f.kind, FrameKind::Headers);
    assert_eq!(f.stream_id, 1);
    assert!(f.has(END_HEADERS));
    assert_eq!(f.payload, b"abc");
    assert_eq!(used, FRAME_HEADER_LEN + 3);
}

#[test]
fn waits_for_a_partial_frame() {
    let buf = frame_bytes(0x0, 0, 1, b"hello");
    for n in 0..buf.len() {
        assert!(parse_frame(&buf[..n], 16_384).unwrap().is_none(), "must not decide on {n} bytes");
    }
    assert!(parse_frame(&buf, 16_384).unwrap().is_some());
}

#[test]
fn a_frame_above_max_frame_size_is_refused() {
    let mut v = vec![0x00, 0x40, 0x01];
    v.extend_from_slice(&[0x0, 0x0, 0, 0, 0, 1]);
    assert!(matches!(parse_frame(&v, 16_384), Err(Http2Error::FrameTooLarge)));
}

#[test]
fn padding_is_stripped_and_overlong_padding_refused() {
    let buf = frame_bytes(0x0, PADDED, 1, &[2, b'h', b'i', 0, 0]);
    let (f, _) = parse_frame(&buf, 16_384).unwrap().unwrap();
    assert_eq!(f.payload, b"hi");
    let buf = frame_bytes(0x0, PADDED, 1, &[9, b'h', b'i']);
    assert!(matches!(parse_frame(&buf, 16_384), Err(Http2Error::MalformedFrame)));
}

#[test]
fn the_priority_prefix_is_stripped_from_headers() {
    let payload = [0, 0, 0, 1, 16, b'X'];
    let buf = frame_bytes(0x1, PRIORITY, 3, &payload);
    let (f, _) = parse_frame(&buf, 16_384).unwrap().unwrap();
    assert_eq!(f.payload, b"X");
}

#[test]
fn the_reserved_stream_id_bit_is_ignored() {
    let buf = frame_bytes(0x0, 0, 0x8000_0001, b"");
    let (f, _) = parse_frame(&buf, 16_384).unwrap().unwrap();
    assert_eq!(f.stream_id, 1);
}

#[test]
fn unknown_frame_types_are_kept_not_refused() {
    let buf = frame_bytes(0xfa, 0, 1, b"ext");
    let (f, _) = parse_frame(&buf, 16_384).unwrap().unwrap();
    assert_eq!(f.kind, FrameKind::Unknown(0xfa));
}

#[test]
fn the_promised_stream_id_is_stripped_from_push_promise() {
    let mut payload = 2u32.to_be_bytes().to_vec();
    payload.extend_from_slice(b"BLOCK");
    let buf = frame_bytes(0x5, END_HEADERS, 1, &payload);
    let (f, _) = parse_frame(&buf, 16_384).unwrap().unwrap();
    assert_eq!(f.promised_stream_id, Some(2));
    assert_eq!(f.payload, b"BLOCK");
}

#[test]
fn a_push_promise_too_short_for_its_promised_id_is_refused() {
    let buf = frame_bytes(0x5, END_HEADERS, 1, &[0, 0]);
    assert!(matches!(parse_frame(&buf, 16_384), Err(Http2Error::MalformedFrame)));
}

#[test]
fn settings_parse_the_parameters_that_affect_framing() {
    let payload = [
        0x00, 0x01, 0x00, 0x00, 0x10, 0x00, // header table size 4096
        0x00, 0x05, 0x00, 0x00, 0x80, 0x00, // max frame size 32768
    ];
    let s = parse_settings(&payload).unwrap();
    assert_eq!(s.header_table_size, Some(4096));
    assert_eq!(s.max_frame_size, Some(32768));
    assert_eq!(s.max_header_list_size, None);
}

#[test]
fn a_settings_payload_of_the_wrong_length_is_refused() {
    assert!(matches!(parse_settings(&[0, 1, 0, 0]), Err(Http2Error::MalformedFrame)));
}

fn head(fields: &[(&str, &str)], end_stream: bool) -> StreamHead {
    StreamHead {
        stream_id: 1,
        dir: FlowSide::Initiator,
        fields: fields.iter().map(|(n, v)| (n.as_bytes().to_vec(), v.as_bytes().to_vec())).collect(),
        end_stream,
    }
}

#[test]
fn a_grpc_path_splits_into_service_and_method() {
    let c = GrpcCall::parse_path("/routeguide.RouteGuide/GetFeature").unwrap();
    assert_eq!(c.service, "routeguide.RouteGuide");
    assert_eq!(c.method, "GetFeature");
}

#[test]
fn a_path_that_is_not_grpc_shaped_is_rejected() {
    assert!(GrpcCall::parse_path("/onlyservice").is_none());
    assert!(GrpcCall::parse_path("/a/b/c").is_none());
    assert!(GrpcCall::parse_path("//Method").is_none());
    assert!(GrpcCall::parse_path("/Service/").is_none());
    assert!(GrpcCall::parse_path("no-leading-slash/M").is_none());
}

#[test]
fn content_type_matches_the_family_not_just_the_exact_value() {
    assert!(is_grpc_content_type(b"application/grpc"));
    assert!(is_grpc_content_type(b"application/grpc+proto"));
    assert!(is_grpc_content_type(b"application/grpc+json"));
    assert!(is_grpc_content_type(b"application/grpc; charset=utf-8"));
    assert!(!is_grpc_content_type(b"application/grpcfoo"));
    assert!(!is_grpc_content_type(b"application/json"));
    assert!(!is_grpc_content_type(b""));
}

#[test]
fn a_grpc_stream_yields_its_call() {
    let h = head(
        &[
            (":method", "POST"),
            (":path", "/pkg.Svc/Method"),
            (":authority", "grpc.example"),
            ("content-type", "application/grpc+proto"),
        ],
        false,
    );
    let call = grpc_call(&h).expect("this is a gRPC stream");
    assert_eq!(call.service, "pkg.Svc");
    assert_eq!(call.method, "Method");
    assert_eq!(h.authority(), Some("grpc.example"));
}

#[test]
fn a_plain_http2_stream_is_not_a_grpc_call() {
    let h = head(&[(":method", "GET"), (":path", "/index.html"), ("content-type", "text/html")], false);
    assert!(grpc_call(&h).is_none());
}

#[test]
fn status_comes_from_the_trailers() {
    let fields = vec![
        (b"grpc-status".to_vec(), b"5".to_vec()),
        (b"grpc-message".to_vec(), b"not found".to_vec()),
    ];
    let s = grpc_status(&fields).unwrap();
    assert_eq!(s.code, 5);
    assert_eq!(s.name(), Some("NOT_FOUND"));
    assert!(!s.is_ok());
    assert_eq!(s.message.as_deref(), Some(&b"not found"[..]));
}

#[test]
fn a_trailers_only_response_carries_its_status_in_the_head() {
    let h = head(
        &[
            (":status", "200"),
            ("content-type", "application/grpc"),
            ("grpc-status", "12"),
            ("grpc-message", "unimplemented"),
        ],
        true,
    );
    assert!(h.end_stream);
    let s = grpc_status_of(&h).expect("Trailers-Only carries the status in the head");
    assert_eq!(s.code, 12);
    assert_eq!(s.name(), Some("UNIMPLEMENTED"));
}

#[test]
fn an_application_failure_still_looks_like_http_200() {
    let h = head(&[(":status", "200"), ("content-type", "application/grpc")], false);
    assert_eq!(h.status(), Some(200));
    let trailers = vec![(b"grpc-status".to_vec(), b"14".to_vec())];
    let s = grpc_status(&trailers).unwrap();
    assert!(!s.is_ok());
    assert_eq!(s.name(), Some("UNAVAILABLE"));
}

#[test]
fn a_missing_or_unparsable_status_is_none() {
    assert!(grpc_status(&[]).is_none());
    let bad = vec![(b"grpc-status".to_vec(), b"not-a-number".to_vec())];
    assert!(grpc_status(&bad).is_none());
}

#[test]
fn an_unknown_status_code_has_no_name_but_still_parses() {
    let fields = vec![(b"grpc-status".to_vec(), b"99".to_vec())];
    let s = grpc_status(&fields).unwrap();
    assert_eq!(s.code, 99);
    assert_eq!(s.name(), None);
    assert!(!s.is_ok());
}

#[test]
fn a_status_with_white_space_is_trimmed() {
    let fields = vec![(b"grpc-status".to_vec(), b" 7 ".to_vec())];
    assert_eq!(grpc_status(&fields).unwrap().code, 7);
}

#[test]
fn stream_head_accessors_read_pseudo_headers() {
    let h = head(&[(":method", "GET"), (":scheme", "https"), ("content-type", "text/plain")], false);
    assert_eq!(h.method(), Some("GET"));
    assert_eq!(h.scheme(), Some("https"));
    assert_eq!(h.content_type(), Some("text/plain"));
    assert_eq!(h.field("content-type"), Some(&b"text/plain"[..]));
    assert_eq!(h.field_str("missing"), None);
    assert_eq!(h.path(), None);
    assert_eq!(h.status(), None);
}

#[test]
fn config_builders_and_frame_size_clamp() {
    let c = Http2Config::default().with_max_frame_size(20_000);
    assert_eq!(c.effective_max_frame_size(), 20_000);
    let c = Http2Config::default().with_max_frame_size(u32::MAX);
    assert_eq!(c.effective_max_frame_size(), 1_048_576 - 9);
    let c = Http2Config::default().with_max_buffered_bytes(4).with_max_frame_size(100);
    assert_eq!(c.effective_max_frame_size(), 0);
}

#[test]
fn integers_round_trip_the_rfc_examples() {
    assert_eq!(decode_int(&[0x0a], 5).unwrap().0, 10);
    assert_eq!(decode_int(&[0x1f, 0x9a, 0x0a], 5).unwrap().0, 1337);
    assert_eq!(decode_int(&[0x2a], 8).unwrap().0, 42);
}

#[test]
fn a_continuation_that_would_overflow_is_refused() {
    let wire = [0x1f, 0xff, 0xff, 0xff, 0xff, 0xff, 0xff, 0xff, 0xff, 0xff, 0x7f];
    assert!(matches!(decode_int(&wire, 5), Err(Http2Error::HpackIntegerOverflow)));
}

#[test]
fn a_truncated_integer_is_refused() {
    assert!(matches!(decode_int(&[0x1f, 0x80], 5), Err(Http2Error::HpackTruncated)));
    assert!(matches!(decode_int(&[], 5), Err(Http2Error::HpackTruncated)));
}

#[test]
fn decode_int_leaves_the_rest() {
    let (v, rest) = decode_int(&[0x0a, 0xff, 0x01], 5).unwrap();
    assert_eq!(v, 10);
    assert_eq!(rest, &[0xff, 0x01]);
}

#[test]
fn integers_match_the_rfc_examples() {
    let mut v = Vec::new();
    encode_int(&mut v, 10, 5, 0);
    assert_eq!(v, [0x0a]);
    v.clear();
    encode_int(&mut v, 1337, 5, 0);
    assert_eq!(v, [0x1f, 0x9a, 0x0a]);
    v.clear();
    encode_int(&mut v, 42, 8, 0);
    assert_eq!(v, [0x2a]);
}

#[test]
fn integers_round_trip_at_every_prefix_width() {
    const MAX_REPRESENTABLE: u64 = (1u64 << 63) - 1;
    for prefix in 1..=8u8 {
        let mask = (1u64 << prefix) - 1;
        for v in [0, 1, mask.saturating_sub(1), mask, mask + 1, 255, 1337, u64::from(u32::MAX), MAX_REPRESENTABLE] {
            let mut buf = Vec::new();
            encode_int(&mut buf, v, prefix, 0);
            let (got, rest) = decode_int(&buf, prefix).expect("decodes");
            assert_eq!(got, v, "prefix {prefix}, value {v}");
            assert!(rest.is_empty(), "prefix {prefix}, value {v}");
        }
        let mut buf = Vec::new();
        encode_int(&mut buf, u64::MAX, prefix, 0);
        assert_eq!(decode_int(&buf, prefix), Err(Http2Error::HpackIntegerOverflow), "prefix {prefix}");
    }
}

#[test]
fn flags_survive_the_prefix() {
    let mut v = Vec::new();
    encode_int(&mut v, 1337, 5, 0x20);
    assert_eq!(v[0] & 0xe0, 0x20, "the size-update pattern survives");
    assert_eq!(v, [0x3f, 0x9a, 0x0a]);
}

#[test]
fn credentials_are_never_indexed_by_default() {
    assert_eq!(default_sensitivity(b"authorization", b"x"), HeaderSensitivity::Sensitive);
    assert_eq!(default_sensitivity(b"cookie", b"x"), HeaderSensitivity::Sensitive);
    assert_eq!(default_sensitivity(b"date", b"x"), HeaderSensitivity::NotIndexed);
    assert_eq!(default_sensitivity(b"accept", b"x"), HeaderSensitivity::Indexable);
}

#[test]
fn decodes_the_rfc_examples() {
    let wire = [0xf1, 0xe3, 0xc2, 0xe5, 0xf2, 0x3a, 0x6b, 0xa0, 0xab, 0x90, 0xf4, 0xff];
    assert_eq!(decode(&wire).unwrap(), b"www.example.com");
    let wire = [0xa8, 0xeb, 0x10, 0x64, 0x9c, 0xbf];
    assert_eq!(decode(&wire).unwrap(), b"no-cache");
    assert_eq!(decode(&[0x64, 0x02]).unwrap(), b"302");
    let wire = [0xae, 0xc3, 0x77, 0x1a, 0x4b];
    assert_eq!(decode(&wire).unwrap(), b"private");
}

#[test]
fn an_empty_input_decodes_to_nothing() {
    assert_eq!(decode(&[]).unwrap(), b"");
}

#[test]
fn eos_in_the_data_is_refused() {
    let wire = [0xff, 0xff, 0xff, 0xff];
    assert!(matches!(decode(&wire), Err(Http2Error::HuffmanInvalid)));
}

#[test]
fn padding_that_is_not_ones_is_refused() {
    assert!(matches!(decode(&[0x00]), Err(Http2Error::HuffmanInvalid)));
}

#[test]
fn padding_of_up_to_seven_ones_is_accepted() {
    assert_eq!(decode(&[0x07]).unwrap(), b"0");
}

#[test]
fn the_table_is_complete_and_canonical() {
    assert_eq!(SYMBOL_COUNT, 257, "256 symbols plus EOS");
    // No symbol's code is a prefix of another's.
    for i in 0..SYMBOL_COUNT {
        let (ci, li) = code_of(i);
        for j in 0..SYMBOL_COUNT {
            let (cj, lj) = code_of(j);
            if i == j || li > lj {
                continue;
            }
            assert_ne!(cj >> (lj - li), ci, "code {i} is a prefix of code {j}");
        }
    }
}

#[test]
fn huffman_never_panics_on_arbitrary_input() {
    for seed in 0..128u8 {
        let bytes: Vec<u8> = (0..64u8).map(|i| i.wrapping_mul(seed).wrapping_add(0x5a)).collect();
        let _ = decode(&bytes);
    }
}

#[test]
fn a_large_block_splits_into_headers_and_continuations() {
    let block: Vec<u8> = (0..40000u32).map(|i| (i % 251) as u8).collect();
    let wire = write_headers(3, &block, true, 16384).unwrap();
    let frames = read_back(&wire);
    assert_eq!(frames.len(), 3);
    let mut joined = Vec::new();
    for (i, (kind, flags, sid, payload)) in frames.iter().enumerate() {
        assert_eq!(*sid, 3);
        assert!(payload.len() <= 16384);
        assert_eq!(*kind, if i == 0 { FrameKind::Headers } else { FrameKind::Continuation });
        assert_eq!(flags & END_HEADERS != 0, i == 2);
        assert_eq!(flags & END_STREAM != 0, i == 0);
        joined.extend_from_slice(payload);
    }
    assert_eq!(joined, block);
}
