use flowscope::event::FlowSide;
use flowscope::http::access::{HttpAccessLog, HttpAccessOutcome, HttpAccessRecord};
use flowscope::http::proxy::{HttpEvent, HttpProxyConfig, HttpProxyParser};
use flowscope::http::{BodyFraming, HttpPoison, SwitchKind};

fn push_all(p: &mut HttpProxyParser, dir: FlowSide, bytes: &[u8]) {
    let n = p.push(dir, bytes);
    assert_eq!(n, bytes.len(), "test inputs fit the default caps");
}

fn drain(p: &mut HttpProxyParser) -> Vec<HttpEvent> {
    let mut out = Vec::new();
    while let Some(ev) = p.next_event() {
        out.push(ev);
    }
    out
}

/// Concatenated `raw` of every event, which must reproduce the
/// wire bytes exactly.
fn raw_of(evs: &[HttpEvent]) -> Vec<u8> {
    let mut v = Vec::new();
    for ev in evs {
        match ev {
            HttpEvent::RequestHead(h) => v.extend_from_slice(&h.raw),
            HttpEvent::ResponseHead(h) => v.extend_from_slice(&h.raw),
            HttpEvent::Body { raw, .. } => v.extend_from_slice(raw),
            HttpEvent::Trailers { raw, .. } => v.extend_from_slice(raw),
            _ => {}
        }
    }
    v
}

fn decoded_of(evs: &[HttpEvent]) -> Vec<u8> {
    let mut v = Vec::new();
    for ev in evs {
        if let HttpEvent::Body { data, .. } = ev {
            v.extend_from_slice(data);
        }
    }
    v
}

#[test]
fn head_arrives_before_any_body_byte() {
    let mut p = HttpProxyParser::new();
    push_all(
        &mut p,
        FlowSide::Initiator,
        b"POST /submit HTTP/1.1\r\nHost: api.example.com\r\nContent-Length: 1000\r\n\r\n",
    );
    let ev = p.next_event().expect("head must be ready");
    match ev {
        HttpEvent::RequestHead(h) => {
            assert_eq!(h.method.as_slice(), b"POST");
            assert_eq!(h.host(), Some("api.example.com"));
            assert_eq!(h.framing, BodyFraming::ContentLength(1000));
        }
        other => panic!("expected RequestHead, got {other:?}"),
    }
    assert!(p.next_event().is_none(), "no body has been fed yet");
}

#[test]
fn body_is_never_accumulated() {
    let mut p = HttpProxyParser::new();
    push_all(
        &mut p,
        FlowSide::Initiator,
        b"POST /u HTTP/1.1\r\nContent-Length: 100000\r\n\r\n",
    );
    let _ = drain(&mut p);
    // Push the whole body through in slices, draining as we go.
    let chunk = vec![b'x'; 4096];
    let mut sent = 0usize;
    while sent < 100_000 {
        let slice = &chunk[..chunk.len().min(100_000 - sent)];
        let n = p.push(FlowSide::Initiator, slice);
        sent += n;
        let _ = drain(&mut p);
        assert!(
            p.buffered(FlowSide::Initiator) <= HttpProxyConfig::default().max_buffered_bytes,
            "the parser must never accumulate a body"
        );
    }
    assert_eq!(p.buffered(FlowSide::Initiator), 0);
}

#[test]
fn raw_spans_reproduce_the_wire() {
    let wire: &[u8] = b"POST /u HTTP/1.1\r\nTransfer-Encoding: chunked\r\n\r\n\
                        5\r\nhello\r\n6\r\n world\r\n0\r\nX-Sum: 9\r\n\r\n";
    let mut p = HttpProxyParser::new();
    push_all(&mut p, FlowSide::Initiator, wire);
    let evs = drain(&mut p);
    assert_eq!(raw_of(&evs), wire);
    assert_eq!(decoded_of(&evs), b"hello world");

    let trailers: Vec<_> = evs
        .iter()
        .filter_map(|e| match e {
            HttpEvent::Trailers { trailers, .. } => Some(trailers.clone()),
            _ => None,
        })
        .collect();
    assert_eq!(trailers.len(), 1);
    assert_eq!(trailers[0][0].0.as_slice(), b"X-Sum");
    assert_eq!(trailers[0][0].1.as_slice(), b"9");
    assert!(matches!(evs.last(), Some(HttpEvent::End { .. })));
}

#[test]
fn proxy_split_feeds_produce_the_same_events() {
    let wire: &[u8] = b"POST /u HTTP/1.1\r\nContent-Length: 11\r\n\r\nhello world\
                        GET /next HTTP/1.1\r\nHost: h\r\n\r\n";
    let mut whole = HttpProxyParser::new();
    push_all(&mut whole, FlowSide::Initiator, wire);
    let a = drain(&mut whole);

    let mut drip = HttpProxyParser::new();
    let mut b = Vec::new();
    for byte in wire {
        push_all(&mut drip, FlowSide::Initiator, std::slice::from_ref(byte));
        b.extend(drain(&mut drip));
    }
    assert_eq!(raw_of(&a), raw_of(&b));
    assert_eq!(decoded_of(&a), decoded_of(&b));
    assert_eq!(raw_of(&b), wire);
}

#[test]
fn pipelined_requests_each_end_cleanly() {
    let mut p = HttpProxyParser::new();
    push_all(
        &mut p,
        FlowSide::Initiator,
        b"POST /a HTTP/1.1\r\nContent-Length: 3\r\n\r\nAAA\
          POST /b HTTP/1.1\r\nContent-Length: 2\r\n\r\nBB\
          GET /c HTTP/1.1\r\n\r\n",
    );
    let evs = drain(&mut p);
    let paths: Vec<String> = evs
        .iter()
        .filter_map(|e| match e {
            HttpEvent::RequestHead(h) => Some(h.path_str().unwrap().to_string()),
            _ => None,
        })
        .collect();
    assert_eq!(paths, vec!["/a", "/b", "/c"]);
    let ends = evs
        .iter()
        .filter(|e| matches!(e, HttpEvent::End { .. }))
        .count();
    assert_eq!(ends, 3, "one End per message");
}

#[test]
fn response_framing_uses_the_request_method() {
    let mut p = HttpProxyParser::new();
    push_all(&mut p, FlowSide::Initiator, b"HEAD /x HTTP/1.1\r\n\r\n");
    let _ = drain(&mut p);
    push_all(
        &mut p,
        FlowSide::Responder,
        b"HTTP/1.1 200 OK\r\nContent-Length: 100\r\n\r\n",
    );
    let evs = drain(&mut p);
    match &evs[0] {
        HttpEvent::ResponseHead(h) => assert_eq!(h.framing, BodyFraming::NoBody),
        other => panic!("expected ResponseHead, got {other:?}"),
    }
    assert!(matches!(evs[1], HttpEvent::End { .. }));
}

#[test]
fn backpressure_short_count_when_caller_does_not_drain() {
    let cfg = HttpProxyConfig {
        max_buffered_bytes: 4096,
        ..HttpProxyConfig::default()
    };
    let mut p = HttpProxyParser::with_config(cfg);
    let big = vec![b'x'; 8192];
    // Nothing has been parsed, so only the cap is accepted.
    let n = p.push(FlowSide::Initiator, &big);
    assert_eq!(n, 4096);
    // Re-offering the remainder is a refcount slice, not a copy.
    assert_eq!(p.push(FlowSide::Initiator, &big[n..]), 0);
}

#[test]
fn framing_desync_poisons_with_a_typed_reason() {
    let cfg = HttpProxyConfig {
        max_head_bytes: 128,
        ..HttpProxyConfig::default()
    };
    let mut p = HttpProxyParser::with_config(cfg);
    push_all(&mut p, FlowSide::Initiator, &[b'A'; 200]);
    let _ = drain(&mut p);
    assert!(p.is_poisoned());
    assert_eq!(p.poison(), Some(HttpPoison::HeadOverflow));
    assert_eq!(p.poison_reason(), Some("head-overflow"));
    // A poisoned connection accepts nothing further.
    assert_eq!(
        p.push(
            FlowSide::Initiator,
            b"GET / HTTP/1.1\r\n\r\n"
        ),
        0
    );
}

#[test]
fn bad_chunk_size_is_reported_as_such() {
    let mut p = HttpProxyParser::new();
    push_all(
        &mut p,
        FlowSide::Initiator,
        b"POST /u HTTP/1.1\r\nTransfer-Encoding: chunked\r\n\r\nzz\r\n",
    );
    let _ = drain(&mut p);
    assert_eq!(p.poison(), Some(HttpPoison::InvalidChunkSize));
}


fn statuses(evs: &[HttpEvent]) -> Vec<(u16, bool)> {
    evs.iter()
        .filter_map(|e| match e {
            HttpEvent::ResponseHead(h) => Some((h.status, h.interim)),
            _ => None,
        })
        .collect()
}

#[test]
fn interim_responses_precede_the_final_one() {
    // 100-continue then the real response. The interim must be
    // reported (a proxy forwards it) but must not complete the
    // exchange or consume the request.
    let mut p = HttpProxyParser::new();
    push_all(
        &mut p,
        FlowSide::Initiator,
        b"POST /u HTTP/1.1\r\nExpect: 100-continue\r\nContent-Length: 2\r\n\r\n",
    );
    let _ = drain(&mut p);
    push_all(
        &mut p,
        FlowSide::Responder,
        b"HTTP/1.1 100 Continue\r\n\r\nHTTP/1.1 200 OK\r\nContent-Length: 2\r\n\r\nok",
    );
    let evs = drain(&mut p);
    assert_eq!(statuses(&evs), vec![(100, true), (200, false)]);
    assert_eq!(decoded_of(&evs), b"ok");
    // Exactly one End: the interim did not complete anything.
    assert_eq!(
        evs.iter()
            .filter(|e| matches!(e, HttpEvent::End { .. }))
            .count(),
        1
    );
}

#[test]
fn multiple_interims_then_final() {
    // 103 Early Hints (RFC 8297) can repeat before the final.
    let mut p = HttpProxyParser::new();
    push_all(&mut p, FlowSide::Initiator, b"GET /a HTTP/1.1\r\n\r\n");
    let _ = drain(&mut p);
    push_all(
        &mut p,
        FlowSide::Responder,
        b"HTTP/1.1 103 Early Hints\r\nLink: </s.css>\r\n\r\n\
          HTTP/1.1 103 Early Hints\r\nLink: </t.css>\r\n\r\n\
          HTTP/1.1 200 OK\r\nContent-Length: 1\r\n\r\nx",
    );
    let evs = drain(&mut p);
    assert_eq!(statuses(&evs), vec![(103, true), (103, true), (200, false)]);
}

#[test]
fn response_reader_runs_before_the_request_body_is_sent() {
    // The 100-continue deadlock: the server answers while the
    // request body is still outstanding. Framing the response
    // must not wait on the request completing.
    let mut p = HttpProxyParser::new();
    push_all(
        &mut p,
        FlowSide::Initiator,
        b"POST /u HTTP/1.1\r\nExpect: 100-continue\r\nContent-Length: 1000000\r\n\r\n",
    );
    let _ = drain(&mut p);
    push_all(
        &mut p,
        FlowSide::Responder,
        b"HTTP/1.1 100 Continue\r\n\r\n",
    );
    let evs = drain(&mut p);
    assert_eq!(statuses(&evs), vec![(100, true)]);
}

#[test]
fn connect_tunnel_switches_and_stops_parsing() {
    let mut p = HttpProxyParser::new();
    push_all(
        &mut p,
        FlowSide::Initiator,
        b"CONNECT example.com:443 HTTP/1.1\r\nHost: example.com:443\r\n\r\n",
    );
    let _ = drain(&mut p);
    push_all(
        &mut p,
        FlowSide::Responder,
        b"HTTP/1.1 200 Connection Established\r\n\r\n",
    );
    let evs = drain(&mut p);
    assert!(matches!(
        evs.last(),
        Some(HttpEvent::SwitchProtocols {
            kind: SwitchKind::ConnectTunnel
        })
    ));
    // Tunnelled bytes are the caller's to splice; nothing further
    // is parsed as HTTP.
    push_all(&mut p, FlowSide::Initiator, b"\x16\x03\x01\x02\x00\x01");
    assert!(p.next_event().is_none());
    assert!(!p.is_poisoned());
}

#[test]
fn failed_connect_is_a_normal_response() {
    let mut p = HttpProxyParser::new();
    push_all(
        &mut p,
        FlowSide::Initiator,
        b"CONNECT example.com:443 HTTP/1.1\r\n\r\n",
    );
    let _ = drain(&mut p);
    push_all(
        &mut p,
        FlowSide::Responder,
        b"HTTP/1.1 403 Forbidden\r\nContent-Length: 2\r\n\r\nno",
    );
    let evs = drain(&mut p);
    assert!(
        !evs.iter()
            .any(|e| matches!(e, HttpEvent::SwitchProtocols { .. })),
        "a rejected CONNECT does not open a tunnel"
    );
    assert_eq!(decoded_of(&evs), b"no");
}

#[test]
fn websocket_upgrade_switches_with_the_protocol_token() {
    let mut p = HttpProxyParser::new();
    push_all(
        &mut p,
        FlowSide::Initiator,
        b"GET /chat HTTP/1.1\r\nHost: h\r\nUpgrade: websocket\r\nConnection: Upgrade\r\n\r\n",
    );
    let _ = drain(&mut p);
    push_all(
        &mut p,
        FlowSide::Responder,
        b"HTTP/1.1 101 Switching Protocols\r\nUpgrade: websocket\r\nConnection: Upgrade\r\n\r\n",
    );
    let evs = drain(&mut p);
    match evs.last() {
        Some(HttpEvent::SwitchProtocols {
            kind: SwitchKind::Upgrade { protocol },
        }) => assert_eq!(protocol.as_slice(), b"websocket"),
        other => panic!("expected an Upgrade switch, got {other:?}"),
    }
    // The 101 head itself is still reported, so a proxy forwards it.
    assert_eq!(statuses(&evs), vec![(101, false)]);
}

#[test]
fn http2_preface_is_recognised_not_mistaken_for_a_request() {
    let mut p = HttpProxyParser::new();
    push_all(
        &mut p,
        FlowSide::Initiator,
        b"PRI * HTTP/2.0\r\n\r\nSM\r\n\r\n\x00\x00\x00\x04\x00\x00\x00\x00\x00",
    );
    let evs = drain(&mut p);
    assert!(matches!(
        evs.first(),
        Some(HttpEvent::SwitchProtocols {
            kind: SwitchKind::Http2PriorKnowledge
        })
    ));
    assert!(!p.is_poisoned(), "h2 traffic is not a framing failure");
}

#[test]
fn partial_preface_waits_instead_of_guessing() {
    let mut p = HttpProxyParser::new();
    push_all(&mut p, FlowSide::Initiator, b"PRI * HTTP/2.0\r\n");
    assert!(
        p.next_event().is_none(),
        "a prefix of the preface must not decide either way"
    );
    push_all(&mut p, FlowSide::Initiator, b"\r\nSM\r\n\r\n");
    assert!(matches!(
        p.next_event(),
        Some(HttpEvent::SwitchProtocols {
            kind: SwitchKind::Http2PriorKnowledge
        })
    ));
}

#[test]
fn connection_close_completes_the_direction() {
    let mut p = HttpProxyParser::new();
    push_all(&mut p, FlowSide::Initiator, b"GET /a HTTP/1.1\r\n\r\n");
    let _ = drain(&mut p);
    push_all(
        &mut p,
        FlowSide::Responder,
        b"HTTP/1.1 200 OK\r\nConnection: close\r\nContent-Length: 2\r\n\r\nhi",
    );
    let evs = drain(&mut p);
    assert_eq!(decoded_of(&evs), b"hi");
    p.fin(FlowSide::Initiator);
    assert!(
        p.is_done(),
        "after a Connection: close response the connection is finished"
    );
}

#[test]
fn http_1_0_response_without_keep_alive_completes() {
    let mut p = HttpProxyParser::new();
    push_all(&mut p, FlowSide::Initiator, b"GET /a HTTP/1.0\r\n\r\n");
    let _ = drain(&mut p);
    push_all(
        &mut p,
        FlowSide::Responder,
        b"HTTP/1.0 200 OK\r\nContent-Length: 2\r\n\r\nhi",
    );
    let _ = drain(&mut p);
    p.fin(FlowSide::Initiator);
    assert!(p.is_done(), "HTTP/1.0 defaults to closing");
}

#[test]
fn clean_fin_is_not_a_poison() {
    let mut p = HttpProxyParser::new();
    push_all(&mut p, FlowSide::Initiator, b"GET /a HTTP/1.1\r\n\r\n");
    let _ = drain(&mut p);
    p.fin(FlowSide::Initiator);
    p.fin(FlowSide::Responder);
    assert!(!p.is_poisoned());
    assert!(p.is_done());
}

#[test]
fn close_delimited_response_flushes_at_fin() {
    let mut p = HttpProxyParser::new();
    push_all(&mut p, FlowSide::Initiator, b"GET /a HTTP/1.1\r\n\r\n");
    let _ = drain(&mut p);
    push_all(&mut p, FlowSide::Responder, b"HTTP/1.1 200 OK\r\n\r\nhello");
    let evs = drain(&mut p);
    assert_eq!(decoded_of(&evs), b"hello");
    p.fin(FlowSide::Responder);
    // Nothing was withheld: the body was reported as it arrived.
    assert!(!p.is_poisoned());
}

fn run(client: &[u8], server: &[u8]) -> (Vec<HttpAccessRecord>, HttpProxyParser) {
    let mut proxy = HttpProxyParser::new();
    let mut log = HttpAccessLog::new();
    let mut out = Vec::new();
    proxy.push(FlowSide::Initiator, client);
    proxy.push(FlowSide::Responder, server);
    while let Some(ev) = proxy.next_event() {
        log.observe(&ev, &mut out);
    }
    log.finish(proxy.poison(), &mut out);
    (out, proxy)
}

#[test]
fn records_a_completed_exchange() {
    let (recs, _) = run(
        b"POST /orders HTTP/1.1\r\nHost: api.example\r\nContent-Length: 5\r\n\r\nhello",
        b"HTTP/1.1 201 Created\r\nContent-Length: 2\r\n\r\nok",
    );
    assert_eq!(recs.len(), 1);
    let r = &recs[0];
    assert_eq!(r.method_str(), Some("POST"));
    assert_eq!(r.path_str(), Some("/orders"));
    assert_eq!(r.authority.as_deref(), Some("api.example"));
    assert_eq!(r.status, Some(201));
    assert_eq!(r.request_body_bytes, 5);
    assert_eq!(r.response_body_bytes, 2);
    assert_eq!(r.outcome, HttpAccessOutcome::Completed);
    assert_eq!(r.status_class(), Some(2));
}

#[test]
fn counts_chunked_wire_bytes_without_holding_them() {
    let (recs, proxy) = run(
        b"POST /u HTTP/1.1\r\nHost: h\r\nTransfer-Encoding: chunked\r\n\r\n5\r\nhello\r\n0\r\n\r\n",
        b"HTTP/1.1 200 OK\r\nContent-Length: 0\r\n\r\n",
    );
    assert_eq!(recs.len(), 1);
    // "5\r\n" + "hello" + "\r\n" + "0\r\n\r\n" = 15 wire bytes.
    assert_eq!(recs[0].request_body_bytes, 15);
    assert_eq!(proxy.buffered(FlowSide::Initiator), 0);
}

#[test]
fn pipelined_exchanges_pair_in_order() {
    let (recs, _) = run(
        b"GET /a HTTP/1.1\r\nHost: h\r\n\r\nGET /b HTTP/1.1\r\nHost: h\r\n\r\n",
        b"HTTP/1.1 200 OK\r\nContent-Length: 1\r\n\r\nA\
          HTTP/1.1 404 Not Found\r\nContent-Length: 1\r\n\r\nB",
    );
    let seen: Vec<(&str, Option<u16>)> = recs
        .iter()
        .map(|r| (r.path_str().unwrap(), r.status))
        .collect();
    assert_eq!(seen, vec![("/a", Some(200)), ("/b", Some(404))]);
}

#[test]
fn interim_responses_do_not_end_the_exchange() {
    let (recs, _) = run(
        b"POST /u HTTP/1.1\r\nHost: h\r\nExpect: 100-continue\r\nContent-Length: 2\r\n\r\nhi",
        b"HTTP/1.1 100 Continue\r\n\r\nHTTP/1.1 204 No Content\r\n\r\n",
    );
    assert_eq!(recs.len(), 1, "the interim is not its own record");
    assert_eq!(recs[0].status, Some(204));
}

#[test]
fn an_unanswered_request_is_reported() {
    let (recs, _) = run(b"GET /a HTTP/1.1\r\nHost: h\r\n\r\n", b"");
    assert_eq!(recs.len(), 1);
    assert_eq!(recs[0].outcome, HttpAccessOutcome::NoResponse);
    assert_eq!(recs[0].status, None);
}

#[test]
fn a_refused_connection_says_why() {
    let (recs, _) = run(
        b"POST /a HTTP/1.1\r\nHost: h\r\nContent-Length: 6\r\n\
          Transfer-Encoding: chunked\r\n\r\n0\r\n\r\n",
        b"",
    );
    // The request never framed, so there is nothing to pair —
    // but the refusal itself must not be silent.
    assert!(
        recs.iter()
            .all(|r| matches!(r.outcome, HttpAccessOutcome::Refused { .. }))
    );
}

#[test]
fn a_tunnelled_exchange_is_marked_switched() {
    let (recs, _) = run(
        b"CONNECT h:443 HTTP/1.1\r\nHost: h:443\r\n\r\n",
        b"HTTP/1.1 200 Connection Established\r\n\r\n",
    );
    assert_eq!(recs.len(), 1);
    assert_eq!(recs[0].outcome, HttpAccessOutcome::Switched);
    assert_eq!(recs[0].method_str(), Some("CONNECT"));
}

#[test]
fn the_access_log_counts_response_bytes_and_resets_per_exchange() {
    let (recs, _) = run(
        b"GET /a HTTP/1.1\r\nHost: a.example\r\n\r\nGET /b HTTP/1.1\r\nHost: [::1]:81\r\n\r\n",
        b"HTTP/1.1 200 OK\r\nContent-Length: 3\r\n\r\nabcHTTP/1.1 200 OK\r\nContent-Length: 1\r\n\r\nz",
    );
    assert_eq!(recs.len(), 2);
    assert_eq!(recs[0].response_body_bytes, 3);
    assert_eq!(recs[1].response_body_bytes, 1);
    assert_eq!(recs[1].authority.as_deref(), Some("::1"));
}

#[test]
fn a_record_without_status_has_no_class() {
    let r = HttpAccessRecord {
        method: b"GET".to_vec(),
        path: vec![0xff],
        authority: None,
        version: flowscope::http::HttpVersion::Http1_1,
        status: None,
        request_body_bytes: 0,
        response_body_bytes: 0,
        outcome: HttpAccessOutcome::NoResponse,
    };
    assert_eq!(r.status_class(), None);
    assert_eq!(r.path_str(), None);
    let mut log = HttpAccessLog::default();
    let mut out = Vec::new();
    log.finish(Some(HttpPoison::DuplicateHost), &mut out);
    assert!(out.is_empty());
}

#[test]
fn head_then_body_then_end_reproduce_the_wire() {
    let wire: &[u8] = b"POST /submit HTTP/1.1\r\nHost: api.example.com\r\nContent-Length: 5\r\n\r\nhello";
    let mut p = HttpProxyParser::new();
    assert_eq!(p.push(FlowSide::Initiator, wire), wire.len());
    let Some(HttpEvent::RequestHead(head)) = p.next_event() else {
        panic!("expected a request head");
    };
    assert_eq!(head.host(), Some("api.example.com"));
    assert_eq!(head.framing, BodyFraming::ContentLength(5));
    let mut raw = head.raw.clone();
    let mut body = Vec::new();
    loop {
        match p.next_event() {
            Some(HttpEvent::Body { data, raw: r, .. }) => {
                body.extend_from_slice(&data);
                raw.extend_from_slice(&r);
            }
            Some(HttpEvent::End { dir }) => {
                assert_eq!(dir, FlowSide::Initiator);
                break;
            }
            other => panic!("unexpected {other:?}"),
        }
    }
    assert_eq!(body, b"hello");
    assert_eq!(raw, wire);
}
