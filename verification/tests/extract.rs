use std::collections::HashSet;
use std::sync::atomic::{AtomicBool, Ordering};

use etherparse::{Ethernet2Header, IpNumber, Ipv4Header, Ipv6FlowLabel, Ipv6Header, PacketBuilder, TcpHeader};

use flowscope::event::{L4Proto, Orientation, Timestamp};
use flowscope::extract::encap_gre::{peel_gre, synthesize_eth, GRE_IP_PROTO};
use flowscope::extract::five_tuple::SockAddr;
use flowscope::extract::{
    AutoDetectEncap, AutoEncapVariants, FiveTuple, FiveTupleKey, FlowExtractor, FlowLabel, InnerGre,
    PacketView, TcpFlags, Tagged, Tagger,
};
use flowscope::icmp::IcmpInner;
use flowscope::net::IpAddr;

fn tcp_header(sp: u16, dp: u16, seq: u32, ack: u32, flags: u8) -> TcpHeader {
    let mut tcp = TcpHeader::new(sp, dp, seq, 8192);
    tcp.acknowledgment_number = ack;
    tcp.fin = flags & 0x01 != 0;
    tcp.syn = flags & 0x02 != 0;
    tcp.rst = flags & 0x04 != 0;
    tcp.psh = flags & 0x08 != 0;
    tcp.ack = flags & 0x10 != 0;
    tcp.urg = flags & 0x20 != 0;
    tcp
}

#[allow(clippy::too_many_arguments)]
fn ipv4_tcp(
    smac: [u8; 6],
    dmac: [u8; 6],
    sip: [u8; 4],
    dip: [u8; 4],
    sp: u16,
    dp: u16,
    seq: u32,
    ack: u32,
    flags: u8,
    payload: &[u8],
) -> Vec<u8> {
    let mut out = Vec::new();
    PacketBuilder::ethernet2(smac, dmac)
        .ipv4(sip, dip, 64)
        .tcp_header(tcp_header(sp, dp, seq, ack, flags))
        .write(&mut out, payload)
        .unwrap();
    out
}

fn ipv4_udp(sip: [u8; 4], dip: [u8; 4], sp: u16, dp: u16, payload: &[u8]) -> Vec<u8> {
    let mut out = Vec::new();
    PacketBuilder::ethernet2([0; 6], [0; 6])
        .ipv4(sip, dip, 64)
        .udp(sp, dp)
        .write(&mut out, payload)
        .unwrap();
    out
}

fn ipv6_tcp(sip: [u8; 16], dip: [u8; 16], sp: u16, dp: u16, seq: u32, flags: u8, payload: &[u8]) -> Vec<u8> {
    let mut out = Vec::new();
    PacketBuilder::ethernet2([0; 6], [0; 6])
        .ipv6(sip, dip, 64)
        .tcp_header(tcp_header(sp, dp, seq, 0, flags))
        .write(&mut out, payload)
        .unwrap();
    out
}

fn at0() -> Timestamp {
    Timestamp::default()
}

#[test]
fn syn_packet_forward() {
    let f = ipv4_tcp([0; 6], [0; 6], [10, 0, 0, 1], [10, 0, 0, 2], 1234, 80, 1000, 0, 0x02, b"");
    let view = PacketView::new(&f, at0());
    let e = FiveTuple::bidirectional().extract(view).unwrap();
    assert_eq!(e.key.proto, L4Proto::Tcp);
    assert_eq!(e.orientation, Orientation::Forward);
    assert!(e.tcp.is_some());
    let tcp = e.tcp.unwrap();
    assert!(tcp.flags.contains(TcpFlags::syn()));
    assert_eq!(tcp.seq, 1000);
}

#[test]
fn bidirectional_canonicalizes() {
    let fwd = ipv4_tcp([0; 6], [0; 6], [10, 0, 0, 1], [10, 0, 0, 2], 1234, 80, 1000, 0, 0x02, b"");
    let rev = ipv4_tcp([0; 6], [0; 6], [10, 0, 0, 2], [10, 0, 0, 1], 80, 1234, 0, 1001, 0x12, b"");
    let e_fwd = FiveTuple::bidirectional().extract(PacketView::new(&fwd, at0())).unwrap();
    let e_rev = FiveTuple::bidirectional().extract(PacketView::new(&rev, at0())).unwrap();
    assert_eq!(e_fwd.key, e_rev.key, "keys must match");
    assert_ne!(e_fwd.orientation, e_rev.orientation);
}

#[test]
fn directional_distinguishes_directions() {
    let fwd = ipv4_tcp([0; 6], [0; 6], [10, 0, 0, 1], [10, 0, 0, 2], 1234, 80, 0, 0, 0x02, b"");
    let rev = ipv4_tcp([0; 6], [0; 6], [10, 0, 0, 2], [10, 0, 0, 1], 80, 1234, 0, 0, 0x12, b"");
    let e_fwd = FiveTuple::directional().extract(PacketView::new(&fwd, at0())).unwrap();
    let e_rev = FiveTuple::directional().extract(PacketView::new(&rev, at0())).unwrap();
    assert_ne!(e_fwd.key, e_rev.key, "directional keys must differ");
}

#[test]
fn udp_no_tcp_info() {
    let f = ipv4_udp([1, 2, 3, 4], [5, 6, 7, 8], 53, 5353, b"hello");
    let e = FiveTuple::bidirectional().extract(PacketView::new(&f, at0())).unwrap();
    assert_eq!(e.key.proto, L4Proto::Udp);
    assert!(e.tcp.is_none());
}

#[test]
fn ipv6_supported() {
    let f = ipv6_tcp(
        [0xfe, 0x80, 0, 0, 0, 0, 0, 0, 0, 0, 0, 0, 0, 0, 0, 1],
        [0xfe, 0x80, 0, 0, 0, 0, 0, 0, 0, 0, 0, 0, 0, 0, 0, 2],
        1,
        2,
        0,
        0x02,
        b"",
    );
    let e = FiveTuple::bidirectional().extract(PacketView::new(&f, at0())).unwrap();
    assert_eq!(e.key.proto, L4Proto::Tcp);
}

#[test]
fn malformed_returns_none() {
    let f = [0u8; 4];
    assert!(FiveTuple::bidirectional().extract(PacketView::new(&f, at0())).is_none());
}

#[test]
fn key_hash_eq_consistency() {
    let f1 = ipv4_tcp([0; 6], [0; 6], [1, 1, 1, 1], [2, 2, 2, 2], 10, 20, 0, 0, 0x02, b"");
    let f2 = ipv4_tcp([0; 6], [0; 6], [2, 2, 2, 2], [1, 1, 1, 1], 20, 10, 0, 0, 0x12, b"");
    let e1 = FiveTuple::bidirectional().extract(PacketView::new(&f1, at0())).unwrap();
    let e2 = FiveTuple::bidirectional().extract(PacketView::new(&f2, at0())).unwrap();
    let mut set = HashSet::new();
    set.insert(e1.key);
    set.insert(e2.key);
    assert_eq!(set.len(), 1, "bidirectional keys must hash equal");
}

#[test]
fn five_tuple_keys_read_addresses_and_ports() {
    let f = ipv4_tcp([0; 6], [0; 6], [10, 0, 0, 2], [10, 0, 0, 1], 80, 1234, 0, 0, 0x12, b"xy");
    let e = FiveTuple::bidirectional().extract(PacketView::new(&f, at0())).unwrap();
    assert_eq!(e.key.a, SockAddr { ip: IpAddr::V4(0x0a00_0001), port: 1234 });
    assert_eq!(e.key.b, SockAddr { ip: IpAddr::V4(0x0a00_0002), port: 80 });
    assert_eq!(e.orientation, Orientation::Reverse);
    assert_eq!(e.tcp.unwrap().payload_len, 2);
    assert!(e.key.either_port(80));
    assert_eq!(e.key.well_known_port(), 80);
}

fn inner(src: u32, dst: u32, sp: u16, dp: u16) -> IcmpInner {
    IcmpInner {
        src: IpAddr::V4(src),
        dst: IpAddr::V4(dst),
        proto: L4Proto::Tcp,
        src_port: Some(sp),
        dst_port: Some(dp),
    }
}

#[test]
fn icmp_inner_keys_match_the_live_flow() {
    let f = ipv4_tcp([0; 6], [0; 6], [10, 0, 0, 2], [10, 0, 0, 1], 80, 1234, 0, 0, 0x12, b"");
    let live = FiveTuple::bidirectional().extract(PacketView::new(&f, at0())).unwrap().key;
    let k = FiveTupleKey::from_inner_canonical(&inner(0x0a00_0002, 0x0a00_0001, 80, 1234)).unwrap();
    assert_eq!(k, live);
    let lit = FiveTupleKey::from_inner_literal(&inner(0x0a00_0002, 0x0a00_0001, 80, 1234)).unwrap();
    assert_eq!(lit.a.port, 80);
    let mut no_port = inner(1, 2, 3, 4);
    no_port.dst_port = None;
    assert!(FiveTupleKey::from_inner_canonical(&no_port).is_none());
}

fn build_ipv4_in_gre(gre_flags: u8, gre_extra: usize) -> Vec<u8> {
    let mut tcp = TcpHeader::new(12345, 80, 0, 8192);
    tcp.syn = true;
    let inner_ip = Ipv4Header::new(tcp.header_len() as u16, 64, IpNumber::TCP, [1, 1, 1, 1], [2, 2, 2, 2]).unwrap();
    let mut inner_l3 = Vec::new();
    inner_ip.write(&mut inner_l3).unwrap();
    tcp.write(&mut inner_l3).unwrap();
    let mut gre = vec![gre_flags, 0];
    gre.extend_from_slice(&0x0800u16.to_be_bytes());
    gre.extend(std::iter::repeat_n(0u8, gre_extra));
    let outer_ip = Ipv4Header::new(
        (gre.len() + inner_l3.len()) as u16,
        64,
        IpNumber(GRE_IP_PROTO),
        [10, 0, 0, 1],
        [10, 0, 0, 2],
    )
    .unwrap();
    let eth = Ethernet2Header {
        source: [0; 6],
        destination: [0; 6],
        ether_type: etherparse::EtherType::IPV4,
    };
    let mut frame = Vec::new();
    eth.write(&mut frame).unwrap();
    outer_ip.write(&mut frame).unwrap();
    frame.extend_from_slice(&gre);
    frame.extend_from_slice(&inner_l3);
    frame
}

#[test]
fn ipv4_in_gre_no_extras() {
    let f = build_ipv4_in_gre(0, 0);
    let e = InnerGre::new(FiveTuple::bidirectional()).extract(PacketView::new(&f, at0())).expect("extract");
    assert_eq!(e.key.a.ip, IpAddr::V4(0x0101_0101));
    assert_eq!(e.key.b.ip, IpAddr::V4(0x0202_0202));
}

#[test]
fn ipv4_in_gre_with_checksum() {
    // C flag: four more bytes of checksum and reserved.
    let f = build_ipv4_in_gre(0x80, 4);
    assert!(InnerGre::new(FiveTuple::bidirectional()).extract(PacketView::new(&f, at0())).is_some());
}

#[test]
fn ipv4_in_gre_with_key() {
    // K flag: four more bytes of key.
    let f = build_ipv4_in_gre(0x20, 4);
    assert!(InnerGre::new(FiveTuple::bidirectional()).extract(PacketView::new(&f, at0())).is_some());
}

#[test]
fn ipv4_in_gre_with_checksum_and_key() {
    // C and K: eight more bytes.
    let f = build_ipv4_in_gre(0x80 | 0x20, 8);
    assert!(InnerGre::new(FiveTuple::bidirectional()).extract(PacketView::new(&f, at0())).is_some());
}

#[test]
fn rejects_non_gre_ip() {
    let bytes = ipv4_tcp([0; 6], [0; 6], [10, 0, 0, 1], [10, 0, 0, 2], 1234, 80, 0, 0, 0x02, b"");
    let e = InnerGre::new(FiveTuple::bidirectional());
    assert!(e.extract(PacketView::new(&bytes, at0())).is_none());
}

#[test]
fn rejects_pptp_version_1() {
    let mut bad = build_ipv4_in_gre(0, 0);
    bad[34 + 1] = 1;
    let e = InnerGre::new(FiveTuple::bidirectional());
    assert!(e.extract(PacketView::new(&bad, at0())).is_none());
}

#[test]
fn gre_peel_and_frame_exact_bytes() {
    let (t, rest) = peel_gre(&[0x20, 0, 0x86, 0xdd, 9, 9, 9, 9, 7]).unwrap();
    assert_eq!(t, 0x86dd);
    assert_eq!(rest, &[7]);
    assert!(peel_gre(&[0x20, 0, 0x86, 0xdd, 9]).is_none());
    let f = synthesize_eth(0x0800, &[1, 2]).unwrap();
    assert_eq!(f, vec![0, 0, 0, 0, 0, 0, 0, 0, 0, 0, 0, 0, 0x08, 0x00, 1, 2]);
    assert_eq!(synthesize_eth(0x6558, &[5]).unwrap(), vec![5]);
    assert!(synthesize_eth(0x1234, &[5]).is_none());
    assert!(synthesize_eth(0x0800, &[]).is_none());
}

fn build_ipv6_tcp(label: u32) -> Vec<u8> {
    let mut tcp = TcpHeader::new(1234, 80, 0, 8192);
    tcp.syn = true;
    let mut tcp_bytes = Vec::new();
    tcp.write(&mut tcp_bytes).unwrap();
    let v6 = Ipv6Header {
        traffic_class: 0,
        flow_label: Ipv6FlowLabel::try_new(label).unwrap(),
        payload_length: tcp_bytes.len() as u16,
        next_header: IpNumber::TCP,
        hop_limit: 64,
        source: [0x20, 0x01, 0x0d, 0xb8, 0, 0, 0, 0, 0, 0, 0, 0, 0, 0, 0, 1],
        destination: [0x20, 0x01, 0x0d, 0xb8, 0, 0, 0, 0, 0, 0, 0, 0, 0, 0, 0, 2],
    };
    let eth = Ethernet2Header {
        source: [0; 6],
        destination: [0; 6],
        ether_type: etherparse::EtherType::IPV6,
    };
    let mut frame = Vec::new();
    eth.write(&mut frame).unwrap();
    v6.write(&mut frame).unwrap();
    frame.extend_from_slice(&tcp_bytes);
    frame
}

#[test]
fn ipv6_label_extracted() {
    let f = build_ipv6_tcp(0xabcde);
    let e = FlowLabel::new(FiveTuple::bidirectional());
    assert_eq!(e.extract(PacketView::new(&f, at0())).expect("extract").key.label, 0xabcde);
}

#[test]
fn ipv6_zero_label() {
    let f = build_ipv6_tcp(0);
    let e = FlowLabel::new(FiveTuple::bidirectional());
    assert_eq!(e.extract(PacketView::new(&f, at0())).expect("extract").key.label, 0);
}

#[test]
fn ipv4_label_is_zero() {
    let bytes = ipv4_tcp([0; 6], [0; 6], [10, 0, 0, 1], [10, 0, 0, 2], 1234, 80, 0, 0, 0x02, b"");
    let e = FlowLabel::new(FiveTuple::bidirectional());
    let extracted = e.extract(PacketView::new(&bytes, at0())).expect("extract");
    assert_eq!(extracted.key.label, 0);
}

#[test]
fn distinct_labels_are_distinct_keys() {
    let f1 = build_ipv6_tcp(0x12345);
    let f2 = build_ipv6_tcp(0x12346);
    let e = FlowLabel::new(FiveTuple::bidirectional());
    let k1 = e.extract(PacketView::new(&f1, at0())).unwrap().key;
    let k2 = e.extract(PacketView::new(&f2, at0())).unwrap().key;
    assert_ne!(k1, k2);
    assert_eq!(k1.inner, k2.inner);
}

#[test]
fn plain_traffic_works() {
    let bytes = ipv4_tcp([0; 6], [0; 6], [10, 0, 0, 1], [10, 0, 0, 2], 1234, 80, 0, 0, 0x02, b"");
    let e = AutoDetectEncap::new(FiveTuple::bidirectional());
    assert!(e.extract(PacketView::new(&bytes, at0())).is_some());
}

#[test]
fn variants_none_falls_back_to_plain_only() {
    let bytes = ipv4_tcp([0; 6], [0; 6], [10, 0, 0, 1], [10, 0, 0, 2], 1234, 80, 0, 0, 0x02, b"");
    let e = AutoDetectEncap::with_variants(FiveTuple::bidirectional(), AutoEncapVariants::none());
    assert!(e.extract(PacketView::new(&bytes, at0())).is_some());
}

#[test]
fn unknown_traffic_returns_none() {
    let bytes: Vec<u8> = vec![0u8; 14];
    let e = AutoDetectEncap::new(FiveTuple::bidirectional());
    assert!(e.extract(PacketView::new(&bytes, at0())).is_none());
}

#[test]
fn variants_default_is_all() {
    let v = AutoEncapVariants::default();
    assert!(v.vlan && v.mpls && v.vxlan && v.gtp_u && v.gre);
}

#[test]
fn auto_detect_reaches_into_gre() {
    let f = build_ipv4_in_gre(0, 0);
    let plain = FiveTuple::bidirectional().extract(PacketView::new(&f, at0())).unwrap();
    assert_ne!(plain.key.proto, L4Proto::Tcp, "the outer packet is GRE");
    let auto = AutoDetectEncap::new(FiveTuple::bidirectional()).extract(PacketView::new(&f, at0()));
    assert!(auto.is_some());
}

#[derive(Debug, Clone, Copy)]
struct ConstTag<T: Copy>(T);

impl<T: Copy> Tagger for ConstTag<T> {
    type Tag = T;
    fn tag(&self, _view: PacketView) -> T {
        self.0
    }
}

fn build_v4_frame(src_port: u16) -> Vec<u8> {
    ipv4_tcp([0; 6], [0; 6], [10, 0, 0, 1], [10, 0, 0, 2], src_port, 80, 0, 0, 0x02, b"")
}

#[test]
fn function_pointer_tagger_compiles() {
    let extractor = Tagged::new(FiveTuple::bidirectional(), ConstTag(7u32));
    let frame = build_v4_frame(1234);
    let extracted = extractor.extract(PacketView::new(&frame, at0())).expect("extract");
    assert_eq!(extracted.key.tag, 7);
}

#[test]
fn same_inner_key_distinct_tags_are_distinct_keys() {
    let frame = build_v4_frame(1234);
    let view = PacketView::new(&frame, at0());
    let nic_a = Tagged::new(FiveTuple::bidirectional(), ConstTag(0u32));
    let nic_b = Tagged::new(FiveTuple::bidirectional(), ConstTag(1u32));
    let k_a = nic_a.extract(view).expect("extract a").key;
    let k_b = nic_b.extract(view).expect("extract b").key;
    assert_eq!(k_a.inner, k_b.inner);
    assert_ne!(k_a, k_b);
    assert_eq!(k_a.tag, 0);
    assert_eq!(k_b.tag, 1);
}

#[test]
fn merged_extractor_is_just_the_inner_extractor() {
    let frame = build_v4_frame(1234);
    let merged = FiveTuple::bidirectional();
    let _k = merged.extract(PacketView::new(&frame, at0())).expect("extract").key;
}

#[test]
fn orientation_passes_through() {
    let frame = build_v4_frame(1234);
    let view = PacketView::new(&frame, at0());
    let extractor = Tagged::new(FiveTuple::bidirectional(), ConstTag(0u8));
    let extracted = extractor.extract(view).expect("extract");
    let inner_only = FiveTuple::bidirectional().extract(view).expect("inner");
    assert_eq!(extracted.orientation, inner_only.orientation);
}

#[test]
fn l4_and_tcp_metadata_pass_through() {
    let frame = build_v4_frame(1234);
    let view = PacketView::new(&frame, at0());
    let extractor = Tagged::new(FiveTuple::bidirectional(), ConstTag(0u8));
    let extracted = extractor.extract(view).expect("extract");
    let inner_only = FiveTuple::bidirectional().extract(view).expect("inner");
    assert_eq!(extracted.l4, inner_only.l4);
    assert_eq!(extracted.tcp.is_some(), inner_only.tcp.is_some());
}

#[test]
fn closure_tagger_works() {
    let nic_idx: u32 = 42;
    let extractor = Tagged::new(FiveTuple::bidirectional(), ConstTag(nic_idx));
    let frame = build_v4_frame(1234);
    let extracted = extractor.extract(PacketView::new(&frame, at0())).expect("extract");
    assert_eq!(extracted.key.tag, 42);
}

static TAGGED_CALLED: AtomicBool = AtomicBool::new(false);

struct RecordingTag;

impl Tagger for RecordingTag {
    type Tag = u32;
    fn tag(&self, _view: PacketView) -> u32 {
        TAGGED_CALLED.store(true, Ordering::SeqCst);
        0
    }
}

#[test]
fn inner_returns_none_propagates_without_invoking_tagger() {
    TAGGED_CALLED.store(false, Ordering::SeqCst);
    let extractor = Tagged::new(FiveTuple::bidirectional(), RecordingTag);
    let truncated = [0u8; 4];
    assert!(extractor.extract(PacketView::new(&truncated, at0())).is_none());
    assert!(
        !TAGGED_CALLED.load(Ordering::SeqCst),
        "tagger must not be called when inner returns None"
    );
}
