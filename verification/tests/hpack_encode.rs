use flowscope::http2::hpack::{HpackDecoder, MAX_FIELDS_PER_BLOCK};
use flowscope::http2::huffman;
use flowscope::http2::hpack_encode::NameRules;
use flowscope::http2::{HeaderSensitivity, HpackEncoder, Http2Error, HuffmanPolicy};

fn b(s: &[u8]) -> Vec<u8> {
    s.to_vec()
}

fn fields(pairs: &[(&str, &str)]) -> Vec<(Vec<u8>, Vec<u8>)> {
    pairs
        .iter()
        .map(|(n, v)| (b(n.as_bytes()), b(v.as_bytes())))
        .collect()
}

/// The RFC's vectors assume "index everything indexable".
fn rfc_sensitivity() -> NameRules {
    NameRules::new(HeaderSensitivity::Indexable)
}

fn rfc_encoder() -> HpackEncoder<NameRules> {
    HpackEncoder::new()
        .with_sensitivity(rfc_sensitivity())
        .with_huffman(HuffmanPolicy::Never)
}

#[test]
fn hpack_encode_c_2_1_literal_with_indexing() {
    let mut e = rfc_encoder();
    let out = e
        .encode(&fields(&[("custom-key", "custom-header")]))
        .unwrap();
    assert_eq!(
        out,
        [
            0x40, 0x0a, 0x63, 0x75, 0x73, 0x74, 0x6f, 0x6d, 0x2d, 0x6b, 0x65, 0x79, 0x0d, 0x63,
            0x75, 0x73, 0x74, 0x6f, 0x6d, 0x2d, 0x68, 0x65, 0x61, 0x64, 0x65, 0x72,
        ]
    );
    assert_eq!(e.table_size(), 55);
}

#[test]
fn hpack_encode_c_2_2_literal_without_indexing() {
    let mut e = HpackEncoder::new().with_huffman(HuffmanPolicy::Never);
    let out = e.encode(&fields(&[(":path", "/sample/path")])).unwrap();
    assert_eq!(
        out,
        [0x04, 0x0c, 0x2f, 0x73, 0x61, 0x6d, 0x70, 0x6c, 0x65, 0x2f, 0x70, 0x61, 0x74, 0x68]
    );
    assert_eq!(e.table_len(), 0, "it must not enter the table");
}

#[test]
fn c_2_3_literal_never_indexed() {
    let e = HpackEncoder::new().with_huffman(HuffmanPolicy::Never);
    let out = e
        .with_sensitivity(NameRules::new(HeaderSensitivity::Sensitive))
        .encode(&fields(&[("password", "secret")]))
        .unwrap();
    assert_eq!(
        out,
        [
            0x10, 0x08, 0x70, 0x61, 0x73, 0x73, 0x77, 0x6f, 0x72, 0x64, 0x06, 0x73, 0x65, 0x63,
            0x72, 0x65, 0x74,
        ]
    );
}

#[test]
fn hpack_encode_c_2_4_indexed_field() {
    let mut e = rfc_encoder();
    let out = e.encode(&fields(&[(":method", "GET")])).unwrap();
    assert_eq!(out, [0x82]);
}

#[test]
fn c_3_request_sequence_without_huffman() {
    let mut e = rfc_encoder();

    let first = e
        .encode(&fields(&[
            (":method", "GET"),
            (":scheme", "http"),
            (":path", "/"),
            (":authority", "www.example.com"),
        ]))
        .unwrap();
    assert_eq!(
        first,
        [
            0x82, 0x86, 0x84, 0x41, 0x0f, 0x77, 0x77, 0x77, 0x2e, 0x65, 0x78, 0x61, 0x6d, 0x70,
            0x6c, 0x65, 0x2e, 0x63, 0x6f, 0x6d,
        ]
    );
    assert_eq!(e.table_size(), 57);

    let second = e
        .encode(&fields(&[
            (":method", "GET"),
            (":scheme", "http"),
            (":path", "/"),
            (":authority", "www.example.com"),
            ("cache-control", "no-cache"),
        ]))
        .unwrap();
    assert_eq!(
        second,
        [0x82, 0x86, 0x84, 0xbe, 0x58, 0x08, 0x6e, 0x6f, 0x2d, 0x63, 0x61, 0x63, 0x68, 0x65]
    );
    assert_eq!(e.table_size(), 110);

    let third = e
        .encode(&fields(&[
            (":method", "GET"),
            (":scheme", "https"),
            (":path", "/index.html"),
            (":authority", "www.example.com"),
            ("custom-key", "custom-value"),
        ]))
        .unwrap();
    assert_eq!(
        third,
        [
            0x82, 0x87, 0x85, 0xbf, 0x40, 0x0a, 0x63, 0x75, 0x73, 0x74, 0x6f, 0x6d, 0x2d, 0x6b,
            0x65, 0x79, 0x0c, 0x63, 0x75, 0x73, 0x74, 0x6f, 0x6d, 0x2d, 0x76, 0x61, 0x6c, 0x75,
            0x65,
        ]
    );
    assert_eq!(e.table_size(), 164);
}

#[test]
fn c_4_request_sequence_with_huffman() {
    let mut e = HpackEncoder::new().with_sensitivity(rfc_sensitivity());

    let first = e
        .encode(&fields(&[
            (":method", "GET"),
            (":scheme", "http"),
            (":path", "/"),
            (":authority", "www.example.com"),
        ]))
        .unwrap();
    assert_eq!(
        first,
        [
            0x82, 0x86, 0x84, 0x41, 0x8c, 0xf1, 0xe3, 0xc2, 0xe5, 0xf2, 0x3a, 0x6b, 0xa0, 0xab,
            0x90, 0xf4, 0xff,
        ]
    );
    assert_eq!(e.table_size(), 57);

    let second = e
        .encode(&fields(&[
            (":method", "GET"),
            (":scheme", "http"),
            (":path", "/"),
            (":authority", "www.example.com"),
            ("cache-control", "no-cache"),
        ]))
        .unwrap();
    assert_eq!(
        second,
        [0x82, 0x86, 0x84, 0xbe, 0x58, 0x86, 0xa8, 0xeb, 0x10, 0x64, 0x9c, 0xbf]
    );
    assert_eq!(e.table_size(), 110);
}

#[test]
fn c_5_response_sequence_evicts() {
    let mut e = rfc_encoder().with_signalled_table_size(256);

    let first = e
        .encode(&fields(&[
            (":status", "302"),
            ("cache-control", "private"),
            ("date", "Mon, 21 Oct 2013 20:13:21 GMT"),
            ("location", "https://www.example.com"),
        ]))
        .unwrap();
    assert_eq!(
        first,
        [
            0x48, 0x03, 0x33, 0x30, 0x32, 0x58, 0x07, 0x70, 0x72, 0x69, 0x76, 0x61, 0x74, 0x65,
            0x61, 0x1d, 0x4d, 0x6f, 0x6e, 0x2c, 0x20, 0x32, 0x31, 0x20, 0x4f, 0x63, 0x74, 0x20,
            0x32, 0x30, 0x31, 0x33, 0x20, 0x32, 0x30, 0x3a, 0x31, 0x33, 0x3a, 0x32, 0x31, 0x20,
            0x47, 0x4d, 0x54, 0x6e, 0x17, 0x68, 0x74, 0x74, 0x70, 0x73, 0x3a, 0x2f, 0x2f, 0x77,
            0x77, 0x77, 0x2e, 0x65, 0x78, 0x61, 0x6d, 0x70, 0x6c, 0x65, 0x2e, 0x63, 0x6f, 0x6d,
        ]
    );
    assert_eq!(e.table_size(), 222);

    let second = e
        .encode(&fields(&[
            (":status", "307"),
            ("cache-control", "private"),
            ("date", "Mon, 21 Oct 2013 20:13:21 GMT"),
            ("location", "https://www.example.com"),
        ]))
        .unwrap();
    assert_eq!(second, [0x48, 0x03, 0x33, 0x30, 0x37, 0xc1, 0xc0, 0xbf]);
    assert_eq!(e.table_size(), 222);
}

#[test]
fn credential_fields_are_never_indexed_by_default() {
    for name in ["authorization", "proxy-authorization", "cookie", "set-cookie"] {
        let mut e = HpackEncoder::new();
        let out = e.encode(&fields(&[(name, "s3cret-value")])).unwrap();
        assert_eq!(
            out[0] & 0xf0,
            0x10,
            "{name} must use the never-indexed representation, got {:#04x}",
            out[0]
        );
        assert_eq!(e.table_len(), 0, "{name} must not enter the table");
    }
}

#[test]
fn a_sensitive_field_never_takes_a_dynamic_index() {
    let mut e = HpackEncoder::new().with_huffman(HuffmanPolicy::Never);
    e.encode(&fields(&[("x-secret", "hunter2")])).unwrap();
    let seeded = e.table_len();
    let mut e = e.with_sensitivity(
        NameRules::new(HeaderSensitivity::Indexable).with_rule(b"x-secret", HeaderSensitivity::Sensitive),
    );
    let out = e.encode(&fields(&[("x-secret", "hunter2")])).unwrap();
    assert!(
        out.len() > 1,
        "a sensitive repeat must be a literal, not an index: {out:?}"
    );
    assert_eq!(out[0] & 0xf0, 0x10, "and never-indexed at that");
    assert_eq!(e.table_len(), seeded, "and must not grow the table");
}

#[test]
fn an_entry_over_half_the_table_is_not_indexed() {
    let mut e = HpackEncoder::new().with_max_table_size(128);
    let big = "v".repeat(80);
    e.encode(&fields(&[("x-big", &big)])).unwrap();
    assert_eq!(
        e.table_len(),
        0,
        "indexing it would evict everything useful for one value"
    );
}

#[test]
fn representations_are_chosen_per_field() {
    let mut e = rfc_encoder().with_huffman(HuffmanPolicy::Never);
    assert_eq!(e.encode(&fields(&[(":method", "GET")])).unwrap(), [0x82]);
    let out = e.encode(&fields(&[(":method", "PATCH")])).unwrap();
    assert_eq!(out[0], 0x42);
    let mut fresh = rfc_encoder().with_huffman(HuffmanPolicy::Never);
    let out = fresh.encode(&fields(&[("x-novel", "v")])).unwrap();
    assert_eq!(&out[..2], &[0x40, 0x07]);
}

#[test]
fn shrinking_the_table_emits_a_size_update() {
    let mut e = HpackEncoder::new();
    e.set_peer_max_table_size(0);
    let out = e.encode(&fields(&[(":method", "GET")])).unwrap();
    assert_eq!(out, [0x20, 0x82], "a 0 size update, then the field");
}

#[test]
fn the_minimum_size_in_the_interval_is_also_signalled() {
    let mut e = HpackEncoder::new();
    e.set_peer_max_table_size(100);
    e.set_peer_max_table_size(4096);
    let out = e.encode(&fields(&[(":method", "GET")])).unwrap();
    assert_eq!(out, [0x3f, 0x45, 0x3f, 0xe1, 0x1f, 0x82]);

    let mut d = HpackDecoder::new(4096, 64 * 1024);
    assert_eq!(d.decode(&out).unwrap().len(), 1);
}

#[test]
fn a_raise_above_our_own_ceiling_emits_nothing() {
    let mut e = HpackEncoder::new().with_max_table_size(4096);
    e.set_peer_max_table_size(1024 * 1024);
    let out = e.encode(&fields(&[(":method", "GET")])).unwrap();
    assert_eq!(out, [0x82], "we never claim more than we will use");
}

#[test]
fn malformed_fields_are_refused() {
    let cases: &[(&str, &str, &str)] = &[
        ("Content-Type", "text/plain", "uppercase name"),
        ("", "v", "empty name"),
        ("x bad", "v", "space in name"),
        (":bogus", "v", "unknown pseudo-header"),
        ("x-ok", "a\r\nInjected: 1", "CRLF in value"),
        ("x-ok", "a\0b", "NUL in value"),
        ("x-ok", " leading", "leading space"),
        ("x-ok", "trailing ", "trailing space"),
        ("connection", "keep-alive", "connection-specific"),
        ("transfer-encoding", "chunked", "connection-specific"),
        ("te", "gzip", "te other than trailers"),
    ];
    for (n, v, why) in cases {
        let mut e = HpackEncoder::new();
        assert_eq!(
            e.encode(&fields(&[(n, v)])),
            Err(Http2Error::InvalidHeaderField),
            "{why}"
        );
    }
    let mut e = HpackEncoder::new();
    assert!(e.encode(&fields(&[("te", "trailers")])).is_ok());
}

#[test]
fn a_pseudo_header_after_a_regular_field_is_refused() {
    let mut e = HpackEncoder::new();
    assert_eq!(
        e.encode(&fields(&[("x-ok", "v"), (":method", "GET")])),
        Err(Http2Error::InvalidHeaderField)
    );
}

#[test]
fn oversized_blocks_are_refused() {
    let mut e = HpackEncoder::new();
    let many: Vec<(Vec<u8>, Vec<u8>)> = (0..MAX_FIELDS_PER_BLOCK + 1)
        .map(|i| (b(format!("x-{i}").as_bytes()), b(b"v")))
        .collect();
    assert_eq!(e.encode(&many), Err(Http2Error::HeaderListTooLong));

    let mut e = HpackEncoder::new().with_max_block_bytes(64);
    let big = "v".repeat(1024);
    assert_eq!(
        e.encode(&fields(&[("x-big", &big)])),
        Err(Http2Error::HeaderListTooLong)
    );
}

#[test]
fn a_refused_block_leaves_the_encoder_usable() {
    let mut e = HpackEncoder::new().with_huffman(HuffmanPolicy::Never);
    let before = e.table_size();
    assert!(e.encode(&fields(&[("x-fine", "v"), ("Bad-Name", "v")])).is_err());
    assert_eq!(e.table_size(), before, "the refusal moved nothing");

    let out = e.encode(&fields(&[("x-after", "w")])).unwrap();
    let mut d = HpackDecoder::new(4096, 64 * 1024);
    assert_eq!(d.decode(&out).unwrap(), vec![(b(b"x-after"), b(b"w"))]);
}

#[test]
fn encoder_and_decoder_tables_stay_in_lockstep() {
    let mut e = HpackEncoder::new().with_sensitivity(rfc_sensitivity());
    let mut d = HpackDecoder::new(4096, 64 * 1024);
    let blocks = [
        vec![(":method", "GET"), (":authority", "a.example")],
        vec![(":method", "POST"), (":authority", "a.example"), ("x-a", "1")],
        vec![(":authority", "b.example"), ("x-a", "1"), ("x-b", "2")],
        vec![("x-c", "3")],
    ];
    for (i, blk) in blocks.iter().enumerate() {
        let f = fields(blk);
        let wire = e.encode(&f).unwrap();
        assert_eq!(d.decode(&wire).unwrap(), f, "block {i} round-trips");
        assert_eq!(e.table_len(), d.len(), "block {i}: table depth diverged");
        assert_eq!(
            e.table().snapshot(),
            d.table().snapshot(),
            "block {i}: table contents diverged"
        );
    }
}

#[test]
fn huffman_encoding_round_trips_through_the_decoder() {
    for s in [&b""[..], b"www.example.com", b"no-cache", b"custom-key", b"\x00\xff~|"] {
        let mut out = Vec::new();
        huffman::encode_into(&mut out, s);
        assert_eq!(huffman::encoded_len(s), out.len() as u128);
        assert_eq!(huffman::decode(&out).unwrap(), s.to_vec());
    }
    let mut out = Vec::new();
    huffman::encode_into(&mut out, b"www.example.com");
    assert_eq!(
        out,
        [0xf1, 0xe3, 0xc2, 0xe5, 0xf2, 0x3a, 0x6b, 0xa0, 0xab, 0x90, 0xf4, 0xff]
    );
}

#[test]
fn the_default_encoder_huffman_codes_only_when_shorter() {
    let mut e = HpackEncoder::new().with_sensitivity(rfc_sensitivity());
    // "a" is one byte raw and one byte Huffman-coded: not strictly
    // shorter, so it goes raw.
    let out = e.encode(&fields(&[("x-n", "a")])).unwrap();
    assert_eq!(out, [0x40, 0x03, b'x', b'-', b'n', 0x01, b'a']);
}

#[test]
fn name_rules_pick_the_first_rule_naming_the_field() {
    let mut e = HpackEncoder::new().with_huffman(HuffmanPolicy::Never).with_sensitivity(
        NameRules::new(HeaderSensitivity::NotIndexed)
            .with_rule(b"x-a", HeaderSensitivity::Indexable)
            .with_rule(b"x-a", HeaderSensitivity::Sensitive),
    );
    let out = e.encode(&fields(&[("x-a", "1"), ("x-b", "2")])).unwrap();
    assert_eq!(out[0], 0x40, "x-a is indexed by its first rule");
    assert_eq!(e.table_len(), 1, "x-b falls back to not indexed");
}

#[test]
fn raw_blocks_decode_back_with_tables_in_step() {
    let mut e = HpackEncoder::new()
        .with_huffman(HuffmanPolicy::Never)
        .with_max_table_size(256);
    e.set_peer_max_table_size(128);
    let mut d = HpackDecoder::new(256, 64 * 1024);
    let long = "c".repeat(40);
    let blocks = [
        vec![(":method", "GET"), (":path", "/x"), ("x-a", "1")],
        vec![(":method", "GET"), ("x-a", "1"), ("cookie", "s=1"), ("x-b", "22")],
        vec![("x-c", &long[..]), ("x-a", "1")],
    ];
    for (i, blk) in blocks.iter().enumerate() {
        let f = fields(blk);
        let wire = e.encode(&f).unwrap();
        assert_eq!(d.decode(&wire).unwrap(), f, "block {i} round-trips");
        assert_eq!(e.table().snapshot(), d.table().snapshot(), "block {i}");
        assert_eq!(e.table_size(), d.table().size(), "block {i}");
    }
}
