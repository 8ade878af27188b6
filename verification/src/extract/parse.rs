//! A frame's network and transport layers as plain values, as
//! `etherparse` slices them.

use vstd::prelude::*;

use crate::net::IpAddr;

verus! {

/// A TCP header's fields, and the payload length after it.
#[derive(Debug, Clone, Copy, PartialEq, Eq, Structural)]
pub struct TcpFields {
    pub src_port: u16,
    pub dst_port: u16,
    pub flags: u8,
    pub seq: u32,
    pub ack: u32,
    pub window: u16,
    pub payload_len: usize,
}

/// The transport header of a frame, for TCP and UDP.
#[derive(Debug, Clone, Copy, PartialEq, Eq, Structural)]
pub enum ParsedL4 {
    Tcp(TcpFields),
    /// Source and destination port.
    Udp(u16, u16),
}

/// A frame's IP layer: addresses, protocol number and payload.
#[derive(Debug, Clone)]
pub struct ParsedIp {
    pub src: IpAddr,
    pub dst: IpAddr,
    pub proto: u8,
    pub l4_payload: Vec<u8>,
}

/// A parsed frame: its IP layer when it has one, and its TCP or UDP
/// header when it has one.
#[derive(Debug, Clone)]
pub struct ParsedFrame {
    pub ip: Option<ParsedIp>,
    pub l4: Option<ParsedL4>,
}

/// The IP layer as plain values: source and destination address bytes,
/// protocol number and payload.
pub type IpBytes = (Seq<u8>, Seq<u8>, u8, Seq<u8>);

/// What `SlicedPacket::from_ethernet` makes of a frame's network layer:
/// `None` when the frame does not parse, `Some(None)` when it carries no
/// IP packet.
pub uninterp spec fn ethernet_ip(frame: Seq<u8>) -> Option<Option<IpBytes>>;

/// What `SlicedPacket::from_ethernet` makes of a frame's transport
/// layer, for TCP and UDP.
pub uninterp spec fn ethernet_transport(frame: Seq<u8>) -> Option<ParsedL4>;

/// The raw IP layer, as bytes.
pub open spec fn ip_bytes_view(r: Option<Option<(Vec<u8>, Vec<u8>, u8, Vec<u8>)>>) -> Option<Option<IpBytes>> {
    match r {
        None => None,
        Some(None) => Some(None),
        Some(Some(t)) => Some(Some((t.0@, t.1@, t.2, t.3@))),
    }
}

/// Slices a frame with `etherparse::SlicedPacket::from_ethernet` and
/// copies out its IPv4 or IPv6 layer: source and destination address
/// bytes, the payload's protocol number and the payload. The result is
/// named: nothing is claimed of it but that it depends on the frame.
#[verifier::external_body]
fn sliced_ip(frame: &[u8]) -> (r: Option<Option<(Vec<u8>, Vec<u8>, u8, Vec<u8>)>>)
    ensures
        ip_bytes_view(r) == ethernet_ip(frame@),
{
    let p = etherparse::SlicedPacket::from_ethernet(frame).ok()?;
    Some(match p.net {
        Some(etherparse::NetSlice::Ipv4(v)) => Some((v.header().source().to_vec(), v.header().destination().to_vec(), v.payload().ip_number.0, v.payload().payload.to_vec())),
        Some(etherparse::NetSlice::Ipv6(v)) => Some((v.header().source().to_vec(), v.header().destination().to_vec(), v.payload().ip_number.0, v.payload().payload.to_vec())),
        _ => None,
    })
}

/// Slices a frame with `etherparse::SlicedPacket::from_ethernet` and
/// copies out a TCP header's ports, flag byte, sequence and
/// acknowledgment numbers, window and payload length, or a UDP header's
/// ports. The result is named: nothing is claimed of it but that it
/// depends on the frame.
#[verifier::external_body]
fn sliced_transport(frame: &[u8]) -> (r: Option<ParsedL4>)
    ensures
        r == ethernet_transport(frame@),
{
    match etherparse::SlicedPacket::from_ethernet(frame).ok()?.transport? {
        etherparse::TransportSlice::Tcp(t) => Some(ParsedL4::Tcp(TcpFields { src_port: t.source_port(), dst_port: t.destination_port(), flags: t.slice()[13], seq: t.sequence_number(), ack: t.acknowledgment_number(), window: t.window_size(), payload_len: t.payload().len() })),
        etherparse::TransportSlice::Udp(u) => Some(ParsedL4::Udp(u.source_port(), u.destination_port())),
        _ => None,
    }
}

/// The number four or sixteen address bytes spell, most significant
/// first.
pub open spec fn be_value(b: Seq<u8>) -> nat
    decreases b.len(),
{
    if b.len() == 0 {
        0
    } else {
        be_value(b.drop_last()) * 256 + b.last() as nat
    }
}

/// `256^n`.
pub open spec fn p256(n: nat) -> nat
    decreases n,
{
    if n == 0 {
        1
    } else {
        256 * p256((n - 1) as nat)
    }
}

proof fn lemma_be_value_bound(b: Seq<u8>)
    ensures
        be_value(b) < p256(b.len()),
    decreases b.len(),
{
    if b.len() > 0 {
        lemma_be_value_bound(b.drop_last());
        let p = p256((b.len() - 1) as nat);
        assert(be_value(b) < p * 256) by (nonlinear_arith)
            requires
                be_value(b) == be_value(b.drop_last()) * 256 + b.last(),
                be_value(b.drop_last()) < p,
                b.last() < 256,
        ;
    }
}

proof fn lemma_p256_mono(i: nat, j: nat)
    requires
        i <= j,
    ensures
        p256(i) <= p256(j),
    decreases j,
{
    if i < j {
        lemma_p256_mono(i, (j - 1) as nat);
    }
}

/// The address the bytes spell: four make an IPv4 address, sixteen an
/// IPv6 one.
pub open spec fn address_of(b: Seq<u8>) -> Option<IpAddr> {
    if b.len() == 4 {
        Some(IpAddr::V4(be_value(b) as u32))
    } else if b.len() == 16 {
        Some(IpAddr::V6(be_value(b) as u128))
    } else {
        None
    }
}

pub(crate) fn address(b: &Vec<u8>) -> (r: Option<IpAddr>)
    ensures
        r == address_of(b@),
{
    let n = b.len();
    if n != 4 && n != 16 {
        return None;
    }
    assert(p256(16) == 0x1_0000_0000_0000_0000_0000_0000_0000_0000) by {
        reveal_with_fuel(p256, 17);
    }
    let mut v: u128 = 0;
    let mut i: usize = 0;
    while i < n
        invariant
            n == b@.len(),
            n == 4 || n == 16,
            i <= n,
            v == be_value(b@.take(i as int)),
            v < p256(i as nat),
            p256(16) == 0x1_0000_0000_0000_0000_0000_0000_0000_0000,
        decreases n - i,
    {
        proof {
            assert(b@.take(i + 1).drop_last() =~= b@.take(i as int));
            lemma_p256_mono((i + 1) as nat, 16);
            assert(v * 256 + b@[i as int] < p256((i + 1) as nat)) by (nonlinear_arith)
                requires
                    v < p256(i as nat),
                    p256((i + 1) as nat) == 256 * p256(i as nat),
                    b@[i as int] < 256,
            ;
            assert(b@.take(i + 1).last() == b@[i as int]);
        }
        v = v * 256 + b[i] as u128;
        i += 1;
    }
    assert(b@.take(n as int) =~= b@);
    if n == 4 {
        Some(IpAddr::V4(v as u32))
    } else {
        Some(IpAddr::V6(v))
    }
}


/// The frame's layers as plain values: `None` when it does not parse;
/// else its IP layer with the addresses read as addresses (none when
/// there is no IP packet), and its TCP or UDP header.
pub open spec fn parse_eth_spec(frame: Seq<u8>) -> Option<(Option<(IpAddr, IpAddr, u8, Seq<u8>)>, Option<ParsedL4>)> {
    match ethernet_ip(frame) {
        None => None,
        Some(ip) => Some(
            (
                match ip {
                    Some((s, d, p, pl)) => match (address_of(s), address_of(d)) {
                        (Some(a), Some(b)) => Some((a, b, p, pl)),
                        _ => None,
                    },
                    None => None,
                },
                ethernet_transport(frame),
            ),
        ),
    }
}

/// The frame's layers as plain values.
pub open spec fn frame_view(f: ParsedFrame) -> (Option<(IpAddr, IpAddr, u8, Seq<u8>)>, Option<ParsedL4>) {
    (
        match f.ip {
            Some(ip) => Some((ip.src, ip.dst, ip.proto, ip.l4_payload@)),
            None => None,
        },
        f.l4,
    )
}

/// Parse a frame's IP layer and its TCP or UDP header.
pub fn parse_eth(frame: &[u8]) -> (r: Option<ParsedFrame>)
    ensures
        match parse_eth_spec(frame@) {
            None => r is None,
            Some(v) => r matches Some(f) && frame_view(f) == v,
        },
{
    let ip = match sliced_ip(frame) {
        None => return None,
        Some(ip) => ip,
    };
    let ip = match ip {
        Some((s, d, proto, payload)) => match (address(&s), address(&d)) {
            (Some(a), Some(b)) => Some(ParsedIp { src: a, dst: b, proto, l4_payload: payload }),
            _ => None,
        },
        None => None,
    };
    let l4 = sliced_transport(frame);
    Some(ParsedFrame { ip, l4 })
}

} // verus!
