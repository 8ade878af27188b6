use flowscope::http2::hpack::{DynamicTable, HpackDecoder, MAX_FIELDS_PER_BLOCK};
use flowscope::http2::Http2Error;

fn dec() -> HpackDecoder {
    HpackDecoder::new(4096, 65536)
}

fn as_pairs(fields: &[(Vec<u8>, Vec<u8>)]) -> Vec<(String, String)> {
    fields
        .iter()
        .map(|(n, v)| (String::from_utf8_lossy(n).into_owned(), String::from_utf8_lossy(v).into_owned()))
        .collect()
}

#[test]
fn hpack_c_2_1_literal_with_indexing() {
    // custom-key: custom-header
    let wire = [
        0x40, 0x0a, b'c', b'u', b's', b't', b'o', b'm', b'-', b'k', b'e', b'y', 0x0d, b'c',
        b'u', b's', b't', b'o', b'm', b'-', b'h', b'e', b'a', b'd', b'e', b'r',
    ];
    let mut d = dec();
    let got = d.decode(&wire).unwrap();
    assert_eq!(
        as_pairs(&got),
        vec![("custom-key".into(), "custom-header".into())]
    );
    assert_eq!(d.len(), 1, "incremental indexing adds an entry");
}

#[test]
fn hpack_c_2_2_literal_without_indexing() {
    // :path: /sample/path
    let wire = [
        0x04, 0x0c, b'/', b's', b'a', b'm', b'p', b'l', b'e', b'/', b'p', b'a', b't', b'h',
    ];
    let mut d = dec();
    let got = d.decode(&wire).unwrap();
    assert_eq!(
        as_pairs(&got),
        vec![(":path".into(), "/sample/path".into())]
    );
    assert_eq!(d.len(), 0, "this form must not index");
}

#[test]
fn hpack_c_2_4_indexed_field() {
    // Static index 2 → :method: GET
    let mut d = dec();
    let got = d.decode(&[0x82]).unwrap();
    assert_eq!(as_pairs(&got), vec![(":method".into(), "GET".into())]);
}

#[test]
fn c_3_request_sequence_shares_the_dynamic_table() {
    // The three requests of Appendix C.3, which only decode
    // correctly if the table carries across blocks.
    let mut d = dec();

    let first = [
        0x82, 0x86, 0x84, 0x41, 0x0f, b'w', b'w', b'w', b'.', b'e', b'x', b'a', b'm', b'p',
        b'l', b'e', b'.', b'c', b'o', b'm',
    ];
    assert_eq!(
        as_pairs(&d.decode(&first).unwrap()),
        vec![
            (":method".into(), "GET".into()),
            (":scheme".into(), "http".into()),
            (":path".into(), "/".into()),
            (":authority".into(), "www.example.com".into()),
        ]
    );

    let second = [
        0x82, 0x86, 0x84, 0xbe, 0x58, 0x08, b'n', b'o', b'-', b'c', b'a', b'c', b'h', b'e',
    ];
    assert_eq!(
        as_pairs(&d.decode(&second).unwrap()),
        vec![
            (":method".into(), "GET".into()),
            (":scheme".into(), "http".into()),
            (":path".into(), "/".into()),
            (":authority".into(), "www.example.com".into()),
            ("cache-control".into(), "no-cache".into()),
        ],
        "index 0xbe must resolve through the dynamic table built by the first block"
    );
}

#[test]
fn c_4_huffman_coded_request() {
    // Appendix C.4.1 — the same request, Huffman-encoded.
    let wire = [
        0x82, 0x86, 0x84, 0x41, 0x8c, 0xf1, 0xe3, 0xc2, 0xe5, 0xf2, 0x3a, 0x6b, 0xa0, 0xab,
        0x90, 0xf4, 0xff,
    ];
    let mut d = dec();
    assert_eq!(
        as_pairs(&d.decode(&wire).unwrap()),
        vec![
            (":method".into(), "GET".into()),
            (":scheme".into(), "http".into()),
            (":path".into(), "/".into()),
            (":authority".into(), "www.example.com".into()),
        ]
    );
}


#[test]
fn index_zero_and_out_of_range_are_refused() {
    let mut d = dec();
    assert!(matches!(
        d.decode(&[0x80]),
        Err(Http2Error::HpackInvalidIndex)
    ));
    // 62 is the first dynamic slot, empty here.
    assert!(matches!(
        d.decode(&[0xbe]),
        Err(Http2Error::HpackInvalidIndex)
    ));
}

#[test]
fn the_dynamic_table_evicts_to_stay_within_its_size() {
    // A table just big enough for one entry.
    let mut d = HpackDecoder::new(64, 65536);
    for i in 0..8u8 {
        let name = [b'a' + i];
        let wire = [&[0x40, 0x01][..], &name[..], &[0x01, b'v'][..]].concat();
        d.decode(&wire).unwrap();
    }
    assert!(
        d.len() <= 2,
        "eviction must bound the table, got {}",
        d.len()
    );
}

#[test]
fn an_entry_larger_than_the_table_empties_it() {
    // RFC 7541 §4.4.
    let mut d = HpackDecoder::new(64, 65536);
    d.decode(&[0x40, 0x01, b'a', 0x01, b'v']).unwrap();
    assert_eq!(d.len(), 1);
    let big = [b'x'; 100];
    let wire = [&[0x40, 0x01, b'b'][..], &[0x64][..], &big[..]].concat();
    d.decode(&wire).unwrap();
    assert_eq!(d.len(), 0, "an oversized entry clears the table");
}

#[test]
fn a_peer_cannot_raise_the_table_above_the_hard_cap() {
    let mut d = HpackDecoder::new(4096, 8192);
    // Dynamic table size update to 16 KiB, past the 8 KiB cap.
    let wire = [0x3f, 0xe1, 0x7f];
    assert!(matches!(
        d.decode(&wire),
        Err(Http2Error::HpackTableSizeExceeded)
    ));
}

#[test]
fn settings_can_shrink_the_table_and_evict() {
    let mut d = dec();
    for i in 0..4u8 {
        let name = [b'a' + i];
        let wire = [&[0x40, 0x01][..], &name[..], &[0x01, b'v'][..]].concat();
        d.decode(&wire).unwrap();
    }
    assert_eq!(d.len(), 4);
    d.set_max_size(0);
    assert_eq!(d.len(), 0, "shrinking to zero evicts everything");
}

#[test]
fn a_block_with_too_many_fields_is_refused() {
    // 300 indexed fields — past MAX_FIELDS_PER_BLOCK.
    let wire = vec![0x82u8; 300];
    let mut d = dec();
    assert!(matches!(
        d.decode(&wire),
        Err(Http2Error::HeaderListTooLong)
    ));
}

#[test]
fn hpack_never_panics_on_arbitrary_input() {
    for seed in 0..64u8 {
        let bytes: Vec<u8> = (0..96u8)
            .map(|i| i.wrapping_mul(seed).wrapping_add(seed))
            .collect();
        let mut d = dec();
        let _ = d.decode(&bytes);
    }
}

#[test]
fn a_failed_block_keeps_the_entries_added_before_it() {
    let mut d = dec();
    let wire = [0x40, 0x01, b'a', 0x01, b'v', 0xff];
    assert!(d.decode(&wire).is_err());
    assert_eq!(d.len(), 1);
    assert_eq!(as_pairs(&d.decode(&[0xbe]).unwrap()), vec![("a".into(), "v".into())]);
}

#[test]
fn the_table_accounts_entries_with_their_overhead() {
    let mut t = DynamicTable::new(100, 50);
    assert_eq!(t.max_size(), 50);
    t.insert(b"ab".to_vec(), b"cd".to_vec());
    assert_eq!(t.size(), 36);
    assert_eq!(t.get(0), Some((b"ab".to_vec(), b"cd".to_vec())));
    t.insert(b"e".to_vec(), b"f".to_vec());
    assert_eq!(t.len(), 1, "the oldest entry was evicted");
    assert_eq!(t.size(), 34);
    assert_eq!(t.get(0), Some((b"e".to_vec(), b"f".to_vec())));
    assert_eq!(t.hard_max_size(), 50);
    assert_eq!(MAX_FIELDS_PER_BLOCK, 256);
}
