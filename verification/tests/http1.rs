use flowscope::http::engine::{Engine, EngineEvent, EngineLimits};
use flowscope::http::head::Dir;
use flowscope::http::ja4h::{ja4h, ja4h_parts};
use flowscope::http::session::{HttpMessage, HttpParser};
use flowscope::http::{BodyFraming, HttpPoison, HttpRequest, HttpResponse, HttpVersion};
use flowscope::http::types::RequestHead;

fn req(method: &[u8], version: HttpVersion, headers: &[(&str, &str)]) -> HttpRequest {
    HttpRequest {
        method: method.to_vec(),
        path: b"/".to_vec(),
        version,
        headers: headers.iter().map(|(k, v)| (k.as_bytes().to_vec(), v.as_bytes().to_vec())).collect(),
        body: Vec::new(),
    }
}

fn feed_init(p: &mut HttpParser, bytes: &[u8]) -> Vec<HttpMessage> {
    let mut out = Vec::new();
    p.feed_initiator(bytes, &mut out);
    out
}

fn feed_resp(p: &mut HttpParser, bytes: &[u8]) -> Vec<HttpMessage> {
    let mut out = Vec::new();
    p.feed_responder(bytes, &mut out);
    out
}

fn fin_resp(p: &mut HttpParser) -> Vec<HttpMessage> {
    let mut out = Vec::new();
    p.fin_responder(&mut out);
    out
}

#[test]
fn parses_full_request_then_response() {
    let mut p = HttpParser::default();
    let req = b"GET /index.html HTTP/1.1\r\nHost: example.com\r\n\r\n";
    let m = feed_init(&mut p, req);
    assert_eq!(m.len(), 1);
    match &m[0] {
        HttpMessage::Request(r) => {
            assert_eq!(r.method, b"GET");
            assert_eq!(r.path, b"/index.html");
        }
        _ => panic!("expected Request"),
    }
    let resp = b"HTTP/1.1 200 OK\r\nContent-Length: 5\r\n\r\nhello";
    let m = feed_resp(&mut p, resp);
    assert_eq!(m.len(), 1);
    match &m[0] {
        HttpMessage::Response(r) => {
            assert_eq!(r.status, 200);
            assert_eq!(r.body, b"hello");
        }
        _ => panic!("expected Response"),
    }
}

#[test]
fn split_segments_concatenate() {
    let mut p = HttpParser::default();
    let m = feed_init(&mut p, b"GET /a HTTP/1.1\r\nHo");
    assert!(m.is_empty());
    let m = feed_init(&mut p, b"st: x\r\n\r\n");
    assert_eq!(m.len(), 1);
}

#[test]
fn pipelined_requests() {
    let mut p = HttpParser::default();
    let m = feed_init(&mut p, b"GET /a HTTP/1.1\r\n\r\nGET /b HTTP/1.1\r\n\r\n");
    assert_eq!(m.len(), 2);
}

#[test]
fn fin_flushes_until_eof_body() {
    let mut p = HttpParser::default();
    let m = feed_resp(&mut p, b"HTTP/1.1 200 OK\r\nConnection: close\r\n\r\nhel");
    assert!(m.is_empty());
    let m = feed_resp(&mut p, b"lo");
    assert!(m.is_empty());
    let m = fin_resp(&mut p);
    assert_eq!(m.len(), 1);
    match &m[0] {
        HttpMessage::Response(r) => assert_eq!(r.body, b"hello"),
        _ => panic!("expected Response"),
    }
}

#[test]
fn telemetry_mode_malformed_is_dropped_without_output() {
    let mut p = HttpParser::default();
    let m = feed_init(&mut p, b"NOT-HTTP \x00\x01\x02 garbage\r\n\r\n");
    assert!(m.is_empty());
}

fn engine() -> Engine {
    Engine::new(EngineLimits::default())
}

fn drain(e: &mut Engine, dir: Dir) -> Vec<EngineEvent> {
    let mut out = Vec::new();
    while let Ok(Some(ev)) = e.poll(dir) {
        out.push(ev);
    }
    out
}

fn framing_of(e: &mut Engine, dir: Dir) -> BodyFraming {
    loop {
        match e.poll(dir) {
            Ok(Some(EngineEvent::Head(h))) => return h.framing,
            Ok(Some(_)) => continue,
            other => panic!("expected a head, got {other:?}"),
        }
    }
}

#[test]
fn framing_follows_rfc_9112_section_6_3() {
    let mut e = engine();
    e.push(Dir::Request, b"POST /a HTTP/1.1\r\nHost: h\r\n\r\n");
    assert_eq!(framing_of(&mut e, Dir::Request), BodyFraming::NoBody);

    let mut e = engine();
    e.push(Dir::Request, b"POST /a HTTP/1.1\r\nTransfer-Encoding: chunked\r\n\r\n");
    assert_eq!(framing_of(&mut e, Dir::Request), BodyFraming::Chunked);

    let mut e = engine();
    e.push(Dir::Request, b"POST /a HTTP/1.1\r\nContent-Length: 7\r\n\r\n");
    assert_eq!(framing_of(&mut e, Dir::Request), BodyFraming::ContentLength(7));

    let mut e = engine();
    e.push(Dir::Request, b"HEAD /a HTTP/1.1\r\n\r\n");
    let _ = drain(&mut e, Dir::Request);
    e.push(Dir::Response, b"HTTP/1.1 200 OK\r\nContent-Length: 9\r\n\r\n");
    assert_eq!(framing_of(&mut e, Dir::Response), BodyFraming::NoBody);

    let mut e = engine();
    e.push(Dir::Request, b"GET /a HTTP/1.1\r\n\r\n");
    let _ = drain(&mut e, Dir::Request);
    e.push(Dir::Response, b"HTTP/1.1 200 OK\r\n\r\n");
    assert_eq!(framing_of(&mut e, Dir::Response), BodyFraming::UntilClose);
}

#[test]
fn request_head_then_end_for_bodyless() {
    let mut e = engine();
    e.push(Dir::Request, b"GET /a HTTP/1.1\r\nHost: x\r\n\r\n");
    let evs = drain(&mut e, Dir::Request);
    assert!(matches!(evs[0], EngineEvent::Head(_)));
    assert!(matches!(evs[1], EngineEvent::End));
    assert_eq!(evs.len(), 2);
}

#[test]
fn chunked_body_is_decoded_and_reassembles_wire_bytes() {
    let mut e = engine();
    let wire: &[u8] = b"POST /u HTTP/1.1\r\nTransfer-Encoding: chunked\r\n\r\n5\r\nhello\r\n6\r\n world\r\n0\r\n\r\n";
    e.push(Dir::Request, wire);
    let evs = drain(&mut e, Dir::Request);
    let mut decoded = Vec::new();
    let mut raw = Vec::new();
    for ev in &evs {
        match ev {
            EngineEvent::Head(h) => raw.extend_from_slice(&h.raw),
            EngineEvent::Body { decoded: d, raw: r } => {
                decoded.extend_from_slice(d);
                raw.extend_from_slice(r);
            }
            EngineEvent::Trailers { raw: r, .. } => raw.extend_from_slice(r),
            EngineEvent::End | EngineEvent::Switch(_) => {}
        }
    }
    assert_eq!(decoded, b"hello world");
    assert_eq!(raw, wire, "raw spans must reproduce the wire bytes");
    assert!(matches!(evs.last(), Some(EngineEvent::End)));
}

#[test]
fn head_response_has_no_body_despite_content_length() {
    let mut e = engine();
    e.push(Dir::Request, b"HEAD /x HTTP/1.1\r\n\r\nGET /y HTTP/1.1\r\n\r\n");
    let _ = drain(&mut e, Dir::Request);
    e.push(Dir::Response, b"HTTP/1.1 200 OK\r\nContent-Length: 100\r\n\r\nHTTP/1.1 204 No Content\r\n\r\n");
    let evs = drain(&mut e, Dir::Response);
    let heads: Vec<u16> = evs
        .iter()
        .filter_map(|ev| match ev {
            EngineEvent::Head(h) => Some(h.status),
            _ => None,
        })
        .collect();
    assert_eq!(heads, vec![200, 204]);
}

#[test]
fn clean_fin_does_not_desync() {
    let mut e = engine();
    e.push(Dir::Request, b"GET / HTTP/1.1\r\n\r\n");
    let _ = drain(&mut e, Dir::Request);
    assert!(e.fin(Dir::Request).is_none());
    assert!(!e.is_desynced(Dir::Request), "clean FIN must not desync");
    assert!(e.is_closed(Dir::Request));
}

#[test]
fn until_close_body_flushes_at_fin() {
    let mut e = engine();
    e.push(Dir::Request, b"GET / HTTP/1.1\r\n\r\n");
    let _ = drain(&mut e, Dir::Request);
    e.push(Dir::Response, b"HTTP/1.1 200 OK\r\n\r\nhel");
    let evs = drain(&mut e, Dir::Response);
    assert!(matches!(evs[0], EngineEvent::Head(_)));
    e.push(Dir::Response, b"lo");
    let _ = drain(&mut e, Dir::Response);
    let flushed = e.fin(Dir::Response);
    assert!(matches!(flushed, Some(EngineEvent::Body { .. })));
}

#[test]
fn byte_at_a_time_matches_one_shot() {
    let wire: &[u8] = b"POST /u HTTP/1.1\r\nTransfer-Encoding: chunked\r\n\r\n3\r\nabc\r\n0\r\n\r\n";
    let mut whole = engine();
    whole.push(Dir::Request, wire);
    let a = drain(&mut whole, Dir::Request);
    let mut split = engine();
    let mut b = Vec::new();
    for byte in wire {
        split.push(Dir::Request, std::slice::from_ref(byte));
        b.extend(drain(&mut split, Dir::Request));
    }
    let decoded = |evs: &[EngineEvent]| -> Vec<u8> {
        let mut v = Vec::new();
        for ev in evs {
            if let EngineEvent::Body { decoded, .. } = ev {
                v.extend_from_slice(decoded);
            }
        }
        v
    };
    assert_eq!(decoded(&a), decoded(&b));
    assert_eq!(decoded(&b), b"abc");
}

#[test]
fn oversized_head_desyncs_instead_of_growing() {
    let limits = EngineLimits { max_head_bytes: 64, ..EngineLimits::default() };
    let mut e = Engine::new(limits);
    e.push(Dir::Request, &[b'A'; 200]);
    assert!(e.poll(Dir::Request).is_err());
    assert!(e.is_desynced(Dir::Request));
}

fn head_with(path: &str, headers: &[(&str, &str)]) -> RequestHead {
    RequestHead {
        method: b"GET".to_vec(),
        path: path.as_bytes().to_vec(),
        version: HttpVersion::Http1_1,
        headers: headers.iter().map(|(k, v)| (k.as_bytes().to_vec(), v.as_bytes().to_vec())).collect(),
        framing: BodyFraming::NoBody,
        applied: Vec::new(),
        raw: Vec::new(),
    }
}

#[test]
fn absolute_form_authority_wins_over_host() {
    let h = head_with("http://Example.COM:8080/a", &[("Host", "other.example")]);
    let a = h.authority().unwrap();
    assert_eq!(a.host, "example.com");
    assert_eq!(a.port, Some(8080));
    assert_eq!(a.raw, b"Example.COM:8080");
}

#[test]
fn host_header_gives_the_authority_otherwise() {
    let h = head_with("/a", &[("HOST", "User@WWW.Example.org")]);
    let a = h.authority().unwrap();
    assert_eq!(a.host, "www.example.org");
    assert_eq!(a.port, None);
    let h = head_with("/a", &[("Host", "[::1]:8443")]);
    let a = h.authority().unwrap();
    assert_eq!(a.host, "::1");
    assert_eq!(a.port, Some(8443));
    let h = head_with("/a", &[]);
    let a = h.authority().unwrap();
    assert_eq!(a.host, "");
}

#[test]
fn ambiguous_authorities_are_refused() {
    let h = head_with("/a", &[("Host", "a.example"), ("host", "b.example")]);
    assert_eq!(h.authority().unwrap_err(), HttpPoison::DuplicateHost);
    let h = head_with("/a", &[("Host", "exa\u{212a}mple.com")]);
    assert_eq!(h.authority().unwrap_err(), HttpPoison::NonAsciiAuthority);
    let h = head_with("/a", &[("Host", "host:port")]);
    assert_eq!(h.authority().unwrap_err(), HttpPoison::NonAsciiAuthority);
    let h = head_with("/a", &[("Host", "[::1")]);
    assert_eq!(h.authority().unwrap_err(), HttpPoison::NonAsciiAuthority);
    let h = head_with("/a", &[("Host", "[::1]:")]);
    assert_eq!(h.authority().unwrap_err(), HttpPoison::NonAsciiAuthority);
    let h = head_with("/a", &[("Host", "h:99999")]);
    assert_eq!(h.authority().unwrap_err(), HttpPoison::NonAsciiAuthority);
}

#[test]
fn a_path_with_a_scheme_like_segment_is_not_absolute() {
    let h = head_with("/x?u=http://evil/", &[("Host", "good.example")]);
    assert_eq!(h.authority().unwrap().host, "good.example");
}

#[test]
fn request_accessors_read_headers_case_insensitively() {
    let r = req(
        b"POST",
        HttpVersion::Http1_1,
        &[
            ("HOST", "example.com"),
            ("User-Agent", "curl/8"),
            ("content-length", " 42 "),
            ("Accept", "*/*"),
            ("X-Dup", "1"),
            ("x-dup", "2"),
        ],
    );
    assert_eq!(r.method_str(), Some("POST"));
    assert_eq!(r.path_str(), Some("/"));
    assert_eq!(r.host(), Some("example.com"));
    assert_eq!(r.user_agent(), Some("curl/8"));
    assert_eq!(r.accept(), Some("*/*"));
    assert_eq!(r.cookie(), None);
    assert_eq!(r.content_length(), Some(42));
    assert_eq!(r.header("x-DUP"), Some(&b"1"[..]));
    assert_eq!(r.headers_all("x-dup"), vec![b"1".to_vec(), b"2".to_vec()]);
}

#[test]
fn response_accessors_and_status_classes() {
    let r = HttpResponse::new(
        404,
        b"Not Found".to_vec(),
        HttpVersion::Http1_0,
        vec![
            (b"Set-Cookie".to_vec(), b"a=1".to_vec()),
            (b"set-cookie".to_vec(), vec![0xff]),
            (b"SET-COOKIE".to_vec(), b"b=2".to_vec()),
            (b"Content-Length".to_vec(), b"x".to_vec()),
        ],
        Vec::new(),
    );
    assert_eq!(r.reason_str(), Some("Not Found"));
    assert_eq!(r.set_cookie(), vec!["a=1", "b=2"]);
    assert_eq!(r.status_class(), Some(4));
    assert!(r.is_client_error());
    assert!(!r.is_success() && !r.is_redirect() && !r.is_server_error());
    assert_eq!(r.content_length(), None);
    let odd = HttpResponse::new(600, Vec::new(), HttpVersion::Http1_1, Vec::new(), Vec::new());
    assert_eq!(odd.status_class(), None);
}

#[test]
fn minimal_get_no_cookie_no_referer_no_lang() {
    // Method=GET (ge), HTTP/1.1 (11), n n, 1 header,
    // no Accept-Language (0000).
    let r = req(b"GET", HttpVersion::Http1_1, &[("Host", "example.com")]);
    let p = ja4h_parts(&r);
    assert!(p.a.starts_with("ge11nn"));
    assert_eq!(&p.a[6..8], "01");
    assert!(p.a.ends_with("0000"));
    assert_eq!(p.c, "000000000000");
    assert_eq!(p.d, "000000000000");
}

#[test]
fn cookie_present_sets_c_marker_and_hashes() {
    let r = req(
        b"GET",
        HttpVersion::Http1_1,
        &[
            ("Host", "example.com"),
            ("Cookie", "session=abc; theme=dark"),
        ],
    );
    let p = ja4h_parts(&r);
    // c flag in `a`.
    assert_eq!(&p.a[4..5], "c");
    assert_ne!(p.c, "000000000000");
    assert_ne!(p.d, "000000000000");
    assert_eq!(p.c.len(), 12);
    assert_eq!(p.d.len(), 12);
}

#[test]
fn referer_present_sets_r_marker() {
    let r = req(
        b"GET",
        HttpVersion::Http1_1,
        &[("Host", "example.com"), ("Referer", "https://prev/")],
    );
    let p = ja4h_parts(&r);
    assert_eq!(&p.a[5..6], "r");
    // Referer is excluded from the b hash — its header
    // name shouldn't be in the SHA-256'd input.
}

#[test]
fn accept_language_picked_and_padded() {
    let r = req(
        b"GET",
        HttpVersion::Http1_1,
        &[
            ("Host", "example.com"),
            ("Accept-Language", "en-US,en;q=0.9"),
        ],
    );
    let p = ja4h_parts(&r);
    // en-US -> enus (4 chars).
    assert!(p.a.ends_with("enus"), "expected enus suffix, got {}", p.a);
}

#[test]
fn accept_language_short_tag_padded_with_zeros() {
    let r = req(
        b"GET",
        HttpVersion::Http1_1,
        &[("Host", "example.com"), ("Accept-Language", "de")],
    );
    let p = ja4h_parts(&r);
    assert!(p.a.ends_with("de00"));
}

#[test]
fn cookie_order_is_alphabetical_in_hashes() {
    // Reverse-order cookie input — sorted output, so the
    // hash should be the same as a sorted input.
    let r1 = req(
        b"GET",
        HttpVersion::Http1_1,
        &[("Cookie", "zoo=zebra; alpha=apple; mid=middle")],
    );
    let r2 = req(
        b"GET",
        HttpVersion::Http1_1,
        &[("Cookie", "alpha=apple; mid=middle; zoo=zebra")],
    );
    let p1 = ja4h_parts(&r1);
    let p2 = ja4h_parts(&r2);
    assert_eq!(p1.c, p2.c);
    assert_eq!(p1.d, p2.d);
}

#[test]
fn deterministic_format() {
    let r = req(
        b"POST",
        HttpVersion::Http1_1,
        &[
            ("Host", "example.com"),
            ("Content-Type", "application/json"),
            ("Accept-Language", "fr-FR"),
        ],
    );
    let fp1 = ja4h(&r);
    let fp2 = ja4h(&r);
    assert_eq!(fp1, fp2);
    assert!(fp1.starts_with("po11nn03frfr"));
    // Format: a (12 chars) _ b (12) _ c (12) _ d (12).
    let parts: Vec<&str> = fp1.split('_').collect();
    assert_eq!(parts.len(), 4);
    assert!(parts.iter().all(|p| p.len() == 12));
}

#[test]
fn header_count_caps_at_99() {
    // Pile on 150 headers — should still report 99.
    let mut headers: Vec<(String, String)> = Vec::new();
    for i in 0..150 {
        headers.push((format!("X-Custom-{i}"), "v".into()));
    }
    let r = HttpRequest {
        method: b"GET".to_vec(),
        path: b"/".to_vec(),
        version: HttpVersion::Http1_1,
        headers: headers
            .iter()
            .map(|(k, v)| {
                (
                    k.as_bytes().to_vec(),
                    v.as_bytes().to_vec(),
                )
            })
            .collect(),
        body: Vec::new(),
    };
    let p = ja4h_parts(&r);
    assert_eq!(&p.a[6..8], "99");
}

#[test]
fn short_method_bytes_padded() {
    // A single-char method (uncommon but legal per HTTP
    // grammar) — pad to 2 chars with `0`.
    let r = req(b"X", HttpVersion::Http1_1, &[("Host", "x")]);
    let p = ja4h_parts(&r);
    assert!(p.a.starts_with("x0"));
}

#[test]
fn http_1_0_version_section() {
    let r = req(b"GET", HttpVersion::Http1_0, &[("Host", "x")]);
    let p = ja4h_parts(&r);
    assert_eq!(&p.a[2..4], "10");
}


use flowscope::event::Timestamp;
use flowscope::http::exchange::{HttpExchangeParser, HttpOutcome};

fn at(sec: u32, nsec: u32) -> Timestamp {
    Timestamp { sec, nsec }
}

#[test]
fn exchange_pairs_a_request_with_its_response() {
    let mut p = HttpExchangeParser::new();
    let mut out = Vec::new();
    p.feed_initiator(b"GET /a HTTP/1.1\r\nHost: x\r\n\r\n", at(1, 0));
    p.feed_responder(b"HTTP/1.1 204 No Content\r\nContent-Length: 0\r\n\r\n", at(1, 250_000_000), &mut out);
    assert_eq!(out.len(), 1);
    let x = &out[0];
    assert_eq!(x.outcome, HttpOutcome::Completed);
    assert_eq!(x.request.path, b"/a".to_vec());
    assert_eq!(x.response.as_ref().unwrap().status, 204);
    assert_eq!(x.elapsed, Some(std::time::Duration::from_millis(250)));
    assert_eq!(x.request_ts, at(1, 0));
    assert_eq!(x.response_ts, Some(at(1, 250_000_000)));
    assert_eq!(x.status_class(), Some(2));
    assert!(x.is_success());
    assert!(!x.is_error());
}

#[test]
fn exchange_matches_pipelined_requests_in_order() {
    let mut p = HttpExchangeParser::new();
    let mut out = Vec::new();
    p.feed_initiator(
        b"GET /1 HTTP/1.1\r\nHost: x\r\n\r\nGET /2 HTTP/1.1\r\nHost: x\r\n\r\n",
        at(5, 0),
    );
    p.feed_responder(
        b"HTTP/1.1 200 OK\r\nContent-Length: 0\r\n\r\nHTTP/1.1 404 Not Found\r\nContent-Length: 0\r\n\r\n",
        at(4, 0),
        &mut out,
    );
    assert_eq!(out.len(), 2);
    assert_eq!(out[0].request.path, b"/1".to_vec());
    assert_eq!(out[1].request.path, b"/2".to_vec());
    assert!(out[1].is_error());
    // The clock went backwards: the elapsed time is zero, not negative.
    assert_eq!(out[0].elapsed, Some(std::time::Duration::from_nanos(0)));
}

#[test]
fn exchange_reports_unanswered_and_reset_requests_at_the_end() {
    let mut p = HttpExchangeParser::new();
    let mut out = Vec::new();
    p.feed_initiator(b"GET /r HTTP/1.1\r\nHost: x\r\n\r\n", at(1, 0));
    p.rst_initiator();
    p.feed_initiator(b"GET /n HTTP/1.1\r\nHost: x\r\n\r\n", at(2, 0));
    // A response with no request left waiting is dropped.
    p.fin_initiator();
    p.fin_responder(&mut out);
    assert_eq!(out.len(), 2);
    assert_eq!(out[0].outcome, HttpOutcome::Reset);
    assert_eq!(out[0].request.path, b"/r".to_vec());
    assert!(out[0].response.is_none());
    assert_eq!(out[1].outcome, HttpOutcome::NoResponse);
    assert_eq!(out[1].request.path, b"/n".to_vec());
    assert_eq!(out[1].status_class(), None);
}

#[test]
fn exchange_drops_a_response_nobody_asked_for() {
    let mut p = HttpExchangeParser::new();
    let mut out = Vec::new();
    p.feed_responder(b"HTTP/1.1 200 OK\r\nContent-Length: 0\r\n\r\n", at(1, 0), &mut out);
    assert!(out.is_empty());
}

use flowscope::http::framing::framing_headers;
use flowscope::http::types::SmugglingPolicy;

#[test]
fn hex_chunk_sizes_take_no_sign() {
    assert_eq!(flowscope::text::parse_hex(b"+a"), None);
    assert_eq!(flowscope::text::parse_hex(b"-a"), None);
    assert_eq!(flowscope::text::parse_hex(b"1A"), Some(26));
    assert_eq!(flowscope::text::parse_hex(b""), None);
    assert_eq!(flowscope::http::engine::chunk_size(b"+5;x=y"), None);
    assert_eq!(flowscope::http::engine::chunk_size(b"5;x=y"), Some(5));
}

#[test]
fn repeated_equal_lengths_are_recorded_only_when_normalizing() {
    let h = vec![
        (b"Content-Length".to_vec(), b"5".to_vec()),
        (b"Content-Length".to_vec(), b"5".to_vec()),
    ];
    for policy in [SmugglingPolicy::Strict, SmugglingPolicy::Observe] {
        let (chunked, len, applied) = framing_headers(&h, policy).unwrap();
        assert!(!chunked);
        assert_eq!(len, Some(5));
        assert!(applied.is_empty());
    }
    let (_, len, applied) = framing_headers(&h, SmugglingPolicy::Normalize).unwrap();
    assert_eq!(len, Some(5));
    assert_eq!(applied.len(), 1);
}
