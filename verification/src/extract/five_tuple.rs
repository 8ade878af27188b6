//! [`FiveTuple`]: a flow keyed by protocol and both endpoints.

use vstd::prelude::*;

use crate::event::{L4Proto, Orientation};
use crate::icmp::IcmpInner;
use crate::net::IpAddr;

use super::parse::{parse_eth, parse_eth_spec, ParsedFrame, ParsedL4};
use super::{Extracted, FlowExtractor, PacketView, TcpFlags, TcpInfo};

verus! {

/// A transport endpoint.
#[derive(Debug, Clone, Copy, PartialEq, Eq, Structural, Hash)]
pub struct SockAddr {
    pub ip: IpAddr,
    pub port: u16,
}

/// An address's place in the standard order: IPv4 before IPv6, then by
/// value.
pub open spec fn ip_rank(a: IpAddr) -> (int, int) {
    match a {
        IpAddr::V4(v) => (0, v as int),
        IpAddr::V6(v) => (1, v as int),
    }
}

/// The standard order of endpoints: by address, then by port.
pub open spec fn sock_lt(x: SockAddr, y: SockAddr) -> bool {
    let (fx, vx) = ip_rank(x.ip);
    let (fy, vy) = ip_rank(y.ip);
    fx < fy || (fx == fy && (vx < vy || (vx == vy && x.port < y.port)))
}

fn sock_less(x: SockAddr, y: SockAddr) -> (r: bool)
    ensures
        r == sock_lt(x, y),
{
    match (x.ip, y.ip) {
        (IpAddr::V4(a), IpAddr::V4(b)) => a < b || (a == b && x.port < y.port),
        (IpAddr::V4(_), IpAddr::V6(_)) => true,
        (IpAddr::V6(_), IpAddr::V4(_)) => false,
        (IpAddr::V6(a), IpAddr::V6(b)) => a < b || (a == b && x.port < y.port),
    }
}

/// The 5-tuple extractor: bidirectional (the two directions of a
/// connection are one flow) unless made directional.
#[derive(Debug, Clone, Copy)]
pub struct FiveTuple {
    bidirectional: bool,
}

impl FiveTuple {
    /// Whether the two directions are one flow.
    pub closed spec fn spec_bidirectional(&self) -> bool {
        self.bidirectional
    }

    /// The two directions are separate flows.
    pub fn directional() -> (f: Self)
        ensures
            !f.spec_bidirectional(),
    {
        FiveTuple { bidirectional: false }
    }

    /// The two directions are one flow, its endpoints in standard order.
    pub fn bidirectional() -> (f: Self)
        ensures
            f.spec_bidirectional(),
    {
        FiveTuple { bidirectional: true }
    }

    /// Whether the two directions are one flow.
    pub fn is_bidirectional(&self) -> (b: bool)
        ensures
            b == self.spec_bidirectional(),
    {
        self.bidirectional
    }
}

impl Default for FiveTuple {
    fn default() -> (f: Self)
        ensures
            f.spec_bidirectional(),
    {
        FiveTuple::bidirectional()
    }
}

/// A flow's protocol and endpoints: in a bidirectional flow `a` is the
/// lower endpoint in standard order; in a directional one `a` is the
/// source.
#[derive(Debug, Clone, Copy, PartialEq, Eq, Structural, Hash)]
pub struct FiveTupleKey {
    pub proto: L4Proto,
    pub a: SockAddr,
    pub b: SockAddr,
}

/// The transport protocol of an IP protocol number whose header was not
/// read.
pub open spec fn other_l4(p: u8) -> L4Proto {
    if p == 1 {
        L4Proto::Icmp
    } else if p == 58 {
        L4Proto::IcmpV6
    } else if p == 132 {
        L4Proto::Sctp
    } else {
        L4Proto::Other(p)
    }
}

/// The endpoints in key order and the packet's orientation: swapped,
/// and reverse, when the flow is bidirectional and the destination is
/// the lower endpoint.
pub open spec fn oriented(src: SockAddr, dst: SockAddr, bidirectional: bool) -> (SockAddr, SockAddr, Orientation) {
    if bidirectional && sock_lt(dst, src) {
        (dst, src, Orientation::Reverse)
    } else {
        (src, dst, Orientation::Forward)
    }
}

/// The TCP fields a key's extraction carries.
pub open spec fn tcp_info_of(t: super::parse::TcpFields) -> TcpInfo {
    TcpInfo { flags: TcpFlags(t.flags), seq: t.seq, ack: t.ack, payload_len: t.payload_len, window: t.window }
}

/// What the 5-tuple extractor gives for a packet's IP layer (source,
/// destination, protocol number) and transport header: nothing without
/// an IP layer; TCP and UDP with their ports; anything else with ports
/// zero and its protocol from its number.
pub open spec fn tuple_of(ip: Option<(IpAddr, IpAddr, u8)>, l4: Option<ParsedL4>, bidirectional: bool) -> Option<Extracted<FiveTupleKey>> {
    match ip {
        None => None,
        Some((s, d, p)) => {
            let (sp, dp, proto, tcp) = match l4 {
                Some(ParsedL4::Tcp(t)) => (t.src_port, t.dst_port, L4Proto::Tcp, Some(tcp_info_of(t))),
                Some(ParsedL4::Udp(a, b)) => (a, b, L4Proto::Udp, None),
                None => (0u16, 0u16, other_l4(p), None),
            };
            let (a, b, o) = oriented(SockAddr { ip: s, port: sp }, SockAddr { ip: d, port: dp }, bidirectional);
            Some(Extracted { key: FiveTupleKey { proto, a, b }, orientation: o, l4: Some(proto), tcp })
        },
    }
}

/// What the 5-tuple extractor gives for a frame.
pub open spec fn five_tuple_spec(frame: Seq<u8>, bidirectional: bool) -> Option<Extracted<FiveTupleKey>> {
    match parse_eth_spec(frame) {
        None => None,
        Some((ip, l4)) => tuple_of(
            match ip {
                Some((s, d, p, _)) => Some((s, d, p)),
                None => None,
            },
            l4,
            bidirectional,
        ),
    }
}

fn l4_of_number(p: u8) -> (r: L4Proto)
    ensures
        r == other_l4(p),
{
    if p == 1 {
        L4Proto::Icmp
    } else if p == 58 {
        L4Proto::IcmpV6
    } else if p == 132 {
        L4Proto::Sctp
    } else {
        L4Proto::Other(p)
    }
}

/// The 5-tuple extraction of an already parsed frame.
pub fn extract_from_parsed(parsed: &ParsedFrame, bidirectional: bool) -> (r: Option<Extracted<FiveTupleKey>>)
    ensures
        r == tuple_of(
            match parsed.ip {
                Some(ip) => Some((ip.src, ip.dst, ip.proto)),
                None => None,
            },
            parsed.l4,
            bidirectional,
        ),
{
    let ip = match &parsed.ip {
        Some(ip) => ip,
        None => return None,
    };
    let (sp, dp, proto, tcp) = match parsed.l4 {
        Some(ParsedL4::Tcp(t)) => (
            t.src_port,
            t.dst_port,
            L4Proto::Tcp,
            Some(TcpInfo { flags: TcpFlags(t.flags), seq: t.seq, ack: t.ack, payload_len: t.payload_len, window: t.window }),
        ),
        Some(ParsedL4::Udp(a, b)) => (a, b, L4Proto::Udp, None),
        None => (0u16, 0u16, l4_of_number(ip.proto), None),
    };
    let src = SockAddr { ip: ip.src, port: sp };
    let dst = SockAddr { ip: ip.dst, port: dp };
    let (a, b, orientation) = if bidirectional && sock_less(dst, src) {
        (dst, src, Orientation::Reverse)
    } else {
        (src, dst, Orientation::Forward)
    };
    Some(Extracted { key: FiveTupleKey { proto, a, b }, orientation, l4: Some(proto), tcp })
}

impl FlowExtractor for FiveTuple {
    type Key = FiveTupleKey;

    open spec fn extracts(&self, frame: Seq<u8>, r: Option<Extracted<FiveTupleKey>>) -> bool {
        r == five_tuple_spec(frame, self.spec_bidirectional())
    }

    fn extract(&self, view: PacketView) -> (r: Option<Extracted<FiveTupleKey>>) {
        match parse_eth(view.frame) {
            None => None,
            Some(parsed) => extract_from_parsed(&parsed, self.bidirectional),
        }
    }
}

/// The protocols whose flows a key cannot tell apart without ports.
pub open spec fn needs_ports(p: L4Proto) -> bool {
    p is Tcp || p is Udp || p is Sctp
}

/// The key of an ICMP error's embedded flow, literally: `None` when a
/// TCP, UDP or SCTP flow lacks a port; else the source as `a`, missing
/// ports as zero.
pub open spec fn inner_literal(inner: IcmpInner) -> Option<FiveTupleKey> {
    if needs_ports(inner.proto) && (inner.src_port is None || inner.dst_port is None) {
        None
    } else {
        let sp = match inner.src_port {
            Some(p) => p,
            None => 0u16,
        };
        let dp = match inner.dst_port {
            Some(p) => p,
            None => 0u16,
        };
        Some(FiveTupleKey { proto: inner.proto, a: SockAddr { ip: inner.src, port: sp }, b: SockAddr { ip: inner.dst, port: dp } })
    }
}

impl FiveTupleKey {
    /// Either endpoint uses `port`.
    pub fn either_port(&self, port: u16) -> (r: bool)
        ensures
            r == (self.a.port == port || self.b.port == port),
    {
        self.a.port == port || self.b.port == port
    }

    /// The lower of the two ports: the well-known side of a
    /// client-server flow.
    pub fn well_known_port(&self) -> (r: u16)
        ensures
            r == (if self.a.port <= self.b.port {
                self.a.port
            } else {
                self.b.port
            }),
    {
        if self.a.port <= self.b.port {
            self.a.port
        } else {
            self.b.port
        }
    }

    /// The key of an ICMP error's embedded flow as a bidirectional
    /// extractor keys it: the literal key with its endpoints in
    /// standard order.
    pub fn from_inner_canonical(inner: &IcmpInner) -> (r: Option<Self>)
        ensures
            r == (match inner_literal(*inner) {
                Some(k) => {
                    let (a, b, _) = oriented(k.a, k.b, true);
                    Some(FiveTupleKey { proto: k.proto, a, b })
                },
                None => None,
            }),
    {
        match Self::from_inner_literal(inner) {
            Some(k) => {
                if sock_less(k.b, k.a) {
                    Some(FiveTupleKey { proto: k.proto, a: k.b, b: k.a })
                } else {
                    Some(k)
                }
            },
            None => None,
        }
    }

    /// The key of an ICMP error's embedded flow, keeping its source as
    /// `a`.
    pub fn from_inner_literal(inner: &IcmpInner) -> (r: Option<Self>)
        ensures
            r == inner_literal(*inner),
    {
        let needs = match inner.proto {
            L4Proto::Tcp | L4Proto::Udp | L4Proto::Sctp => true,
            _ => false,
        };
        if needs && (inner.src_port.is_none() || inner.dst_port.is_none()) {
            return None;
        }
        let sp = match inner.src_port {
            Some(p) => p,
            None => 0,
        };
        let dp = match inner.dst_port {
            Some(p) => p,
            None => 0,
        };
        Some(FiveTupleKey { proto: inner.proto, a: SockAddr { ip: inner.src, port: sp }, b: SockAddr { ip: inner.dst, port: dp } })
    }
}


/// The ports a transport header carries; zero without one.
pub open spec fn ports_of(l4: Option<ParsedL4>) -> (u16, u16) {
    match l4 {
        Some(ParsedL4::Tcp(t)) => (t.src_port, t.dst_port),
        Some(ParsedL4::Udp(a, b)) => (a, b),
        None => (0u16, 0u16),
    }
}

/// Two transport headers of the same kind with their ports swapped: a
/// packet's and its reply's.
pub open spec fn reversed(x: Option<ParsedL4>, y: Option<ParsedL4>) -> bool {
    match (x, y) {
        (None, None) => true,
        (Some(ParsedL4::Tcp(a)), Some(ParsedL4::Tcp(b))) => a.src_port == b.dst_port && a.dst_port == b.src_port,
        (Some(ParsedL4::Udp(a1, a2)), Some(ParsedL4::Udp(b1, b2))) => a1 == b2 && a2 == b1,
        _ => false,
    }
}

/// The two directions of a connection are one flow: a packet and its
/// reply (addresses and ports swapped, the same transport) get the same
/// bidirectional key, and, unless both ends are the same endpoint,
/// opposite orientations.
pub proof fn lemma_bidirectional_merges(s: IpAddr, d: IpAddr, p: u8, x: Option<ParsedL4>, y: Option<ParsedL4>)
    requires
        reversed(x, y),
    ensures
        ({
            let ex = tuple_of(Some((s, d, p)), x, true)->Some_0;
            let ey = tuple_of(Some((d, s, p)), y, true)->Some_0;
            let src = SockAddr { ip: s, port: ports_of(x).0 };
            let dst = SockAddr { ip: d, port: ports_of(x).1 };
            &&& ex.key == ey.key
            &&& src != dst ==> ex.orientation != ey.orientation
        }),
{
}

/// A directional extractor keeps the two directions apart: a packet and
/// its reply get different keys unless both ends are the same endpoint.
pub proof fn lemma_directional_separates(s: IpAddr, d: IpAddr, p: u8, x: Option<ParsedL4>, y: Option<ParsedL4>)
    requires
        reversed(x, y),
        (SockAddr { ip: s, port: ports_of(x).0 }) != (SockAddr { ip: d, port: ports_of(x).1 }),
    ensures
        tuple_of(Some((s, d, p)), x, false)->Some_0.key != tuple_of(Some((d, s, p)), y, false)->Some_0.key,
{
}

/// The key made from an ICMP error's embedded flow is the key the
/// bidirectional extractor gives that flow's packets, in either
/// direction: its protocol and ports as read from the packet's header
/// (no ports for a protocol without them; SCTP, whose ports the
/// extractor does not read, is left out).
pub proof fn lemma_inner_key_matches_flow(inner: IcmpInner, p: u8, x: Option<ParsedL4>)
    requires
        match x {
            Some(ParsedL4::Tcp(t)) => inner.proto == L4Proto::Tcp && inner.src_port == Some(t.src_port)
                && inner.dst_port == Some(t.dst_port),
            Some(ParsedL4::Udp(a, b)) => inner.proto == L4Proto::Udp && inner.src_port == Some(a)
                && inner.dst_port == Some(b),
            None => inner.proto == other_l4(p) && !needs_ports(inner.proto) && inner.src_port is None
                && inner.dst_port is None,
        },
    ensures
        ({
            let (a, b, _) = oriented(inner_literal(inner)->Some_0.a, inner_literal(inner)->Some_0.b, true);
            &&& inner_literal(inner) is Some
            &&& (FiveTupleKey { proto: inner.proto, a, b }) == tuple_of(Some((inner.src, inner.dst, p)), x, true)->Some_0.key
        }),
{
}

/// A packet whose transport header is not read still keeps its flow,
/// with both ports zero and the transport its IANA protocol number names:
/// 1 is ICMP, 58 ICMPv6 and 132 SCTP, and any other number is kept as it
/// is; for every number but TCP's and UDP's this is the transport an ICMP
/// error names for a quoted flow. The extraction reports the key's
/// transport as its layer-4 protocol.
pub proof fn lemma_unread_transport_keys(s: IpAddr, d: IpAddr, p: u8, bidirectional: bool)
    ensures
        ({
            let r = tuple_of(Some((s, d, p)), None, bidirectional);
            let e = r->Some_0;
            &&& r is Some
            &&& e.l4 == Some(e.key.proto)
            &&& e.key.a.port == 0 && e.key.b.port == 0
            &&& e.tcp is None
            &&& (e.key.proto == L4Proto::Icmp <==> p == 1)
            &&& (e.key.proto == L4Proto::IcmpV6 <==> p == 58)
            &&& (e.key.proto == L4Proto::Sctp <==> p == 132)
            &&& (p != 1 && p != 58 && p != 132 ==> e.key.proto == L4Proto::Other(p))
            &&& (p != 6 && p != 17 ==> e.key.proto == crate::icmp::parser::l4_of(p))
        }),
{
}

} // verus!
