//! Stateless ICMP message parsing: etherparse checks and slices the
//! message; the type and code bytes are then read into this library's
//! message shape, with the flow that an error message quotes.

use vstd::prelude::*;

use super::types::{
    IcmpFamily, IcmpInner, IcmpMessage, IcmpType, Icmpv4DestUnreachCode, Icmpv4RedirectCode,
    Icmpv4TimeExceededCode, Icmpv4Type, Icmpv6DestUnreachCode, Icmpv6ParamProblemCode,
    Icmpv6TimeExceededCode, Icmpv6Type,
};
use crate::event::L4Proto;
use crate::extract::parse::{address, address_of, be_value};
use crate::net::IpAddr;

verus! {

/// Why a payload is not an ICMP message.
#[derive(Debug, Clone, Copy, PartialEq, Eq, Structural)]
pub enum IcmpParseError {
    /// Not a well-formed ICMPv4 header.
    MalformedV4,
    /// Not a well-formed ICMPv6 header.
    MalformedV6,
}

impl IcmpParseError {
    /// The error's message.
    pub fn as_str(&self) -> (s: &'static str) {
        match self {
            IcmpParseError::MalformedV4 => "invalid ICMP message: malformed ICMPv4 header",
            IcmpParseError::MalformedV6 => "invalid ICMP message: malformed ICMPv6 header",
        }
    }
}

/// An ICMP message as etherparse slices it: the fixed header (the
/// type, code and four more bytes; twenty bytes for an ICMPv4 timestamp)
/// and the rest.
pub struct IcmpFields {
    pub header: Vec<u8>,
    pub body: Vec<u8>,
}

/// The header length etherparse gives an ICMPv4 message: twenty bytes
/// for a timestamp request or reply with code 0, else eight.
pub open spec fn v4_header_len(p: Seq<u8>) -> int {
    if (p[0] == 13 || p[0] == 14) && p[1] == 0 {
        20
    } else {
        8
    }
}

/// What `Icmpv4Slice::from_slice` accepts, cut into header and rest:
/// at least eight bytes, and exactly twenty for a timestamp message.
pub open spec fn etherparse_icmpv4(p: Seq<u8>) -> Option<(Seq<u8>, Seq<u8>)> {
    if p.len() < 8 || ((p[0] == 13 || p[0] == 14) && p[1] == 0 && p.len() != 20) {
        None
    } else {
        Some((p.take(v4_header_len(p)), p.skip(v4_header_len(p))))
    }
}

/// What `Icmpv6Slice::from_slice` accepts, cut into its eight-byte
/// header and the rest: eight bytes up to `u32::MAX`.
pub open spec fn etherparse_icmpv6(p: Seq<u8>) -> Option<(Seq<u8>, Seq<u8>)> {
    if p.len() < 8 || p.len() > u32::MAX {
        None
    } else {
        Some((p.take(8), p.skip(8)))
    }
}

/// Calls `etherparse::Icmpv4Slice::from_slice`, then `header_len`,
/// `slice` and `payload`: `None` exactly when the slice is refused,
/// else the header and the payload as [`etherparse_icmpv4`] says.
#[verifier::external_body]
fn icmpv4_slice(p: &[u8]) -> (r: Option<IcmpFields>)
    ensures
        match (r, etherparse_icmpv4(p@)) {
            (None, None) => true,
            (Some(f), Some((h, b))) => f.header@ == h && f.body@ == b,
            _ => false,
        },
{
    match etherparse::Icmpv4Slice::from_slice(p) {
        Ok(s) => Some(IcmpFields { header: s.slice()[..s.header_len()].to_vec(), body: s.payload().to_vec() }),
        Err(_) => None,
    }
}

/// Calls `etherparse::Icmpv6Slice::from_slice`, then `header_len`,
/// `slice` and `payload`: `None` exactly when the slice is refused,
/// else the header and the payload as [`etherparse_icmpv6`] says.
#[verifier::external_body]
fn icmpv6_slice(p: &[u8]) -> (r: Option<IcmpFields>)
    ensures
        match (r, etherparse_icmpv6(p@)) {
            (None, None) => true,
            (Some(f), Some((h, b))) => f.header@ == h && f.body@ == b,
            _ => false,
        },
{
    match etherparse::Icmpv6Slice::from_slice(p) {
        Ok(s) => Some(IcmpFields { header: s.slice()[..s.header_len()].to_vec(), body: s.payload().to_vec() }),
        Err(_) => None,
    }
}

/// What `Ipv4HeaderSlice::from_slice` accepts: version 4, a header
/// length of at least five words, all present; with the source and
/// destination bytes, the protocol number and the header length.
pub open spec fn ipv4_header_spec(b: Seq<u8>) -> Option<(Seq<u8>, Seq<u8>, u8, int)> {
    if b.len() >= 20 && b[0] / 16 == 4 && b[0] % 16 >= 5 && b.len() >= (b[0] % 16) * 4 {
        Some((b.subrange(12, 16), b.subrange(16, 20), b[9], (b[0] % 16) * 4))
    } else {
        None
    }
}

/// What `Ipv6HeaderSlice::from_slice` accepts: forty bytes of version
/// 6; with the source and destination bytes and the next header.
pub open spec fn ipv6_header_spec(b: Seq<u8>) -> Option<(Seq<u8>, Seq<u8>, u8, int)> {
    if b.len() >= 40 && b[0] / 16 == 6 {
        Some((b.subrange(8, 24), b.subrange(24, 40), b[6], 40))
    } else {
        None
    }
}

/// Calls `etherparse::Ipv4HeaderSlice::from_slice`, then `source`,
/// `destination`, `protocol` and `slice().len()`, as
/// [`ipv4_header_spec`] says.
#[verifier::external_body]
fn ipv4_header(b: &[u8]) -> (r: Option<(Vec<u8>, Vec<u8>, u8, usize)>)
    ensures
        match (r, ipv4_header_spec(b@)) {
            (None, None) => true,
            (Some((s, d, p, n)), Some((s2, d2, p2, n2))) => s@ == s2 && d@ == d2 && p == p2 && n == n2,
            _ => false,
        },
{
    match etherparse::Ipv4HeaderSlice::from_slice(b) {
        Ok(h) => Some((h.source().to_vec(), h.destination().to_vec(), h.protocol().0, h.slice().len())),
        Err(_) => None,
    }
}

/// Calls `etherparse::Ipv6HeaderSlice::from_slice`, then `source`,
/// `destination`, `next_header` and `slice().len()`, as
/// [`ipv6_header_spec`] says.
#[verifier::external_body]
fn ipv6_header(b: &[u8]) -> (r: Option<(Vec<u8>, Vec<u8>, u8, usize)>)
    ensures
        match (r, ipv6_header_spec(b@)) {
            (None, None) => true,
            (Some((s, d, p, n)), Some((s2, d2, p2, n2))) => s@ == s2 && d@ == d2 && p == p2 && n == n2,
            _ => false,
        },
{
    match etherparse::Ipv6HeaderSlice::from_slice(b) {
        Ok(h) => Some((h.source().to_vec(), h.destination().to_vec(), h.next_header().0, h.slice().len())),
        Err(_) => None,
    }
}

// ── reading the bytes ─────────────────────────────────────────────

/// The big-endian `u16` at `i`.
pub open spec fn be16(s: Seq<u8>, i: int) -> u16 {
    (s[i] * 256 + s[i + 1]) as u16
}

/// The big-endian `u32` at `i`.
pub open spec fn be32(s: Seq<u8>, i: int) -> u32 {
    (((s[i] * 256 + s[i + 1]) * 256 + s[i + 2]) * 256 + s[i + 3]) as u32
}

fn read16(s: &[u8], i: usize) -> (r: u16)
    requires
        i + 2 <= s@.len(),
    ensures
        r == be16(s@, i as int),
{
    s[i] as u16 * 256 + s[i + 1] as u16
}

fn read32(s: &[u8], i: usize) -> (r: u32)
    requires
        i + 4 <= s@.len(),
    ensures
        r == be32(s@, i as int),
{
    ((s[i] as u32 * 256 + s[i + 1] as u32) * 256 + s[i + 2] as u32) * 256 + s[i + 3] as u32
}

/// The transport protocol of an IP protocol number.
pub open spec fn l4_of(p: u8) -> L4Proto {
    if p == 6 {
        L4Proto::Tcp
    } else if p == 17 {
        L4Proto::Udp
    } else if p == 1 {
        L4Proto::Icmp
    } else if p == 58 {
        L4Proto::IcmpV6
    } else if p == 132 {
        L4Proto::Sctp
    } else {
        L4Proto::Other(p)
    }
}

fn l4_of_number(p: u8) -> (r: L4Proto)
    ensures
        r == l4_of(p),
{
    if p == 6 {
        L4Proto::Tcp
    } else if p == 17 {
        L4Proto::Udp
    } else if p == 1 {
        L4Proto::Icmp
    } else if p == 58 {
        L4Proto::IcmpV6
    } else if p == 132 {
        L4Proto::Sctp
    } else {
        L4Proto::Other(p)
    }
}

/// The ports after an embedded IP header: for TCP and UDP with four
/// bytes there, the first two big-endian pairs.
pub open spec fn ports_of(rest: Seq<u8>, p: u8) -> (Option<u16>, Option<u16>) {
    if (p == 6 || p == 17) && rest.len() >= 4 {
        (Some(be16(rest, 0)), Some(be16(rest, 2)))
    } else {
        (None, None)
    }
}

fn ports_after(body: &[u8], n: usize, p: u8) -> (r: (Option<u16>, Option<u16>))
    requires
        n <= body@.len(),
    ensures
        r == ports_of(body@.skip(n as int), p),
{
    let rest = &body[n..body.len()];
    assert(rest@ =~= body@.skip(n as int));
    if (p == 6 || p == 17) && rest.len() >= 4 {
        (Some(read16(rest, 0)), Some(read16(rest, 2)))
    } else {
        (None, None)
    }
}

/// A parsed embedded header as plain values.
pub open spec fn header_view(hdr: Option<(Vec<u8>, Vec<u8>, u8, usize)>) -> Option<(Seq<u8>, Seq<u8>, u8, int)> {
    match hdr {
        Some((s, d, p, n)) => Some((s@, d@, p, n as int)),
        None => None,
    }
}

/// The quoted flow of an error message: the addresses and protocol of
/// the embedded IP header and, for TCP and UDP with four bytes after
/// it, the ports. `None` when the embedded header does not parse.
pub open spec fn inner_of(hdr: Option<(Seq<u8>, Seq<u8>, u8, int)>, body: Seq<u8>) -> Option<IcmpInner> {
    match hdr {
        None => None,
        Some((s, d, p, n)) => {
            let ports = ports_of(body.skip(n), p);
            Some(
                IcmpInner {
                    src: address_of(s)->0,
                    dst: address_of(d)->0,
                    proto: l4_of(p),
                    src_port: ports.0,
                    dst_port: ports.1,
                },
            )
        },
    }
}

fn inner_from(hdr: Option<(Vec<u8>, Vec<u8>, u8, usize)>, body: &[u8]) -> (r: Option<IcmpInner>)
    requires
        header_view(hdr) matches Some((s, d, p, n)) ==> n <= body@.len() && (s.len() == 4 || s.len()
            == 16) && (d.len() == 4 || d.len() == 16),
    ensures
        r == inner_of(header_view(hdr), body@),
{
    match hdr {
        None => None,
        Some((s, d, p, n)) => {
            let src = match address(&s) {
                Some(a) => a,
                None => IpAddr::V4(0),
            };
            let dst = match address(&d) {
                Some(a) => a,
                None => IpAddr::V4(0),
            };
            let proto = l4_of_number(p);
            let (sp, dp) = ports_after(body, n, p);
            Some(IcmpInner { src, dst, proto, src_port: sp, dst_port: dp })
        },
    }
}

/// The quoted flow of an ICMPv4 error body.
fn parse_inner_v4(body: &[u8]) -> (r: Option<IcmpInner>)
    ensures
        r == inner_of(ipv4_header_spec(body@), body@),
{
    let h = ipv4_header(body);
    inner_from(h, body)
}

/// The quoted flow of an ICMPv6 error body.
fn parse_inner_v6(body: &[u8]) -> (r: Option<IcmpInner>)
    ensures
        r == inner_of(ipv6_header_spec(body@), body@),
{
    let h = ipv6_header(body);
    inner_from(h, body)
}

// ── ICMPv4 ────────────────────────────────────────────────────────

/// The Destination Unreachable code `c` (0 to 15); fragmentation needed
/// carries the next-hop MTU.
pub open spec fn v4_unreach_code(c: u8, mtu: u16) -> Icmpv4DestUnreachCode {
    match c {
        0 => Icmpv4DestUnreachCode::Net,
        1 => Icmpv4DestUnreachCode::Host,
        2 => Icmpv4DestUnreachCode::Protocol,
        3 => Icmpv4DestUnreachCode::Port,
        4 => Icmpv4DestUnreachCode::FragmentationNeeded { mtu: Some(mtu) },
        5 => Icmpv4DestUnreachCode::SourceRouteFailed,
        6 => Icmpv4DestUnreachCode::DestNetworkUnknown,
        7 => Icmpv4DestUnreachCode::DestHostUnknown,
        8 => Icmpv4DestUnreachCode::SourceHostIsolated,
        9 => Icmpv4DestUnreachCode::NetworkProhibited,
        10 => Icmpv4DestUnreachCode::HostProhibited,
        11 => Icmpv4DestUnreachCode::NetworkTos,
        12 => Icmpv4DestUnreachCode::HostTos,
        13 => Icmpv4DestUnreachCode::CommunicationProhibited,
        14 => Icmpv4DestUnreachCode::HostPrecedenceViolation,
        _ => Icmpv4DestUnreachCode::PrecedenceCutoffInEffect,
    }
}

fn v4_unreach_code_of(c: u8, mtu: u16) -> (r: Icmpv4DestUnreachCode)
    ensures
        r == v4_unreach_code(c, mtu),
{
    match c {
        0 => Icmpv4DestUnreachCode::Net,
        1 => Icmpv4DestUnreachCode::Host,
        2 => Icmpv4DestUnreachCode::Protocol,
        3 => Icmpv4DestUnreachCode::Port,
        4 => Icmpv4DestUnreachCode::FragmentationNeeded { mtu: Some(mtu) },
        5 => Icmpv4DestUnreachCode::SourceRouteFailed,
        6 => Icmpv4DestUnreachCode::DestNetworkUnknown,
        7 => Icmpv4DestUnreachCode::DestHostUnknown,
        8 => Icmpv4DestUnreachCode::SourceHostIsolated,
        9 => Icmpv4DestUnreachCode::NetworkProhibited,
        10 => Icmpv4DestUnreachCode::HostProhibited,
        11 => Icmpv4DestUnreachCode::NetworkTos,
        12 => Icmpv4DestUnreachCode::HostTos,
        13 => Icmpv4DestUnreachCode::CommunicationProhibited,
        14 => Icmpv4DestUnreachCode::HostPrecedenceViolation,
        _ => Icmpv4DestUnreachCode::PrecedenceCutoffInEffect,
    }
}

/// The Redirect code `c` (0 to 3).
pub open spec fn v4_redirect_code(c: u8) -> Icmpv4RedirectCode {
    match c {
        0 => Icmpv4RedirectCode::Network,
        1 => Icmpv4RedirectCode::Host,
        2 => Icmpv4RedirectCode::Tos,
        _ => Icmpv4RedirectCode::TosHost,
    }
}

/// An unrecognised type or code keeps the type, the code, and the bytes
/// after them.
pub open spec fn is_other_v4(t: Icmpv4Type, h: Seq<u8>, b: Seq<u8>) -> bool {
    t matches Icmpv4Type::Other { raw_type, raw_code, raw_body } && raw_type == h[0] && raw_code
        == h[1] && raw_body@ == h.subrange(4, 8) + b
}

/// The ICMPv4 type for a header `h` and rest `b`, by type and code:
/// echo (0, 8) and timestamps (13, 14) with code 0; destination
/// unreachable (3) with codes 0 to 15; redirect (5) with codes 0 to 3;
/// time exceeded (11) with codes 0 and 1; parameter problem (12) with
/// codes 0 to 2, whose pointer is read for code 0. Error messages carry
/// the flow they quote. Anything else is kept raw.
pub open spec fn translates_v4(h: Seq<u8>, b: Seq<u8>, t: Icmpv4Type) -> bool {
    let ty = h[0];
    let c = h[1];
    if ty == 0 && c == 0 {
        t == Icmpv4Type::EchoReply { id: be16(h, 4), seq: be16(h, 6) }
    } else if ty == 8 && c == 0 {
        t == Icmpv4Type::EchoRequest { id: be16(h, 4), seq: be16(h, 6) }
    } else if ty == 3 && c <= 15 {
        t == Icmpv4Type::DestinationUnreachable {
            code: v4_unreach_code(c, be16(h, 6)),
            inner: inner_of(ipv4_header_spec(b), b),
        }
    } else if ty == 5 && c <= 3 {
        t == Icmpv4Type::Redirect {
            code: v4_redirect_code(c),
            gateway: be32(h, 4),
            inner: inner_of(ipv4_header_spec(b), b),
        }
    } else if ty == 11 && c <= 1 {
        t == Icmpv4Type::TimeExceeded {
            code: if c == 0 {
                Icmpv4TimeExceededCode::HopLimitExceeded
            } else {
                Icmpv4TimeExceededCode::FragmentReassemblyTimeExceeded
            },
            inner: inner_of(ipv4_header_spec(b), b),
        }
    } else if ty == 12 && c <= 2 {
        t == Icmpv4Type::ParameterProblem {
            pointer: if c == 0 {
                h[4]
            } else {
                0
            },
            inner: inner_of(ipv4_header_spec(b), b),
        }
    } else if ty == 13 && c == 0 {
        t == Icmpv4Type::Timestamp {
            id: be16(h, 4),
            seq: be16(h, 6),
            originate: be32(h, 8),
            receive: be32(h, 12),
            transmit: be32(h, 16),
        }
    } else if ty == 14 && c == 0 {
        t == Icmpv4Type::TimestampReply {
            id: be16(h, 4),
            seq: be16(h, 6),
            originate: be32(h, 8),
            receive: be32(h, 12),
            transmit: be32(h, 16),
        }
    } else {
        is_other_v4(t, h, b)
    }
}

/// The header's four bytes after the type and code, then the rest.
fn raw_tail(h: &[u8], b: &[u8]) -> (r: Vec<u8>)
    requires
        h@.len() >= 8,
    ensures
        r@ == h@.subrange(4, 8) + b@,
{
    let mut r: Vec<u8> = Vec::new();
    r.extend_from_slice(&h[4..8]);
    r.extend_from_slice(b);
    assert(r@ =~= h@.subrange(4, 8) + b@);
    r
}

/// Read an ICMPv4 header and rest into a type, as [`translates_v4`]
/// says.
pub fn translate_v4(f: &IcmpFields) -> (t: Icmpv4Type)
    requires
        f.header@.len() >= 8,
        (f.header@[0] == 13 || f.header@[0] == 14) && f.header@[1] == 0 ==> f.header@.len() >= 20,
    ensures
        translates_v4(f.header@, f.body@, t),
{
    let h = f.header.as_slice();
    let b = f.body.as_slice();
    let ty = h[0];
    let c = h[1];
    if ty == 0 && c == 0 {
        Icmpv4Type::EchoReply { id: read16(h, 4), seq: read16(h, 6) }
    } else if ty == 8 && c == 0 {
        Icmpv4Type::EchoRequest { id: read16(h, 4), seq: read16(h, 6) }
    } else if ty == 3 && c <= 15 {
        let code = v4_unreach_code_of(c, read16(h, 6));
        Icmpv4Type::DestinationUnreachable { code, inner: parse_inner_v4(b) }
    } else if ty == 5 && c <= 3 {
        let code = match c {
            0 => Icmpv4RedirectCode::Network,
            1 => Icmpv4RedirectCode::Host,
            2 => Icmpv4RedirectCode::Tos,
            _ => Icmpv4RedirectCode::TosHost,
        };
        Icmpv4Type::Redirect { code, gateway: read32(h, 4), inner: parse_inner_v4(b) }
    } else if ty == 11 && c <= 1 {
        let code = if c == 0 {
            Icmpv4TimeExceededCode::HopLimitExceeded
        } else {
            Icmpv4TimeExceededCode::FragmentReassemblyTimeExceeded
        };
        Icmpv4Type::TimeExceeded { code, inner: parse_inner_v4(b) }
    } else if ty == 12 && c <= 2 {
        let pointer = if c == 0 {
            h[4]
        } else {
            0
        };
        Icmpv4Type::ParameterProblem { pointer, inner: parse_inner_v4(b) }
    } else if ty == 13 && c == 0 {
        Icmpv4Type::Timestamp {
            id: read16(h, 4),
            seq: read16(h, 6),
            originate: read32(h, 8),
            receive: read32(h, 12),
            transmit: read32(h, 16),
        }
    } else if ty == 14 && c == 0 {
        Icmpv4Type::TimestampReply {
            id: read16(h, 4),
            seq: read16(h, 6),
            originate: read32(h, 8),
            receive: read32(h, 12),
            transmit: read32(h, 16),
        }
    } else {
        Icmpv4Type::Other { raw_type: ty, raw_code: c, raw_body: raw_tail(h, b) }
    }
}

/// `m` is the ICMPv4 message that `payload` carries.
pub open spec fn v4_message(payload: Seq<u8>, m: IcmpMessage) -> bool {
    match etherparse_icmpv4(payload) {
        None => false,
        Some((h, b)) => m.family == IcmpFamily::V4 && (m.ty matches IcmpType::V4(t)
            && translates_v4(h, b, t)),
    }
}

/// Parse an ICMPv4 payload: an error exactly when etherparse refuses
/// it, else its message as [`translates_v4`] reads it.
pub fn parse_v4(payload: &[u8]) -> (r: Result<IcmpMessage, IcmpParseError>)
    ensures
        r is Err <==> etherparse_icmpv4(payload@) is None,
        r matches Err(e) ==> e == IcmpParseError::MalformedV4,
        r matches Ok(m) ==> v4_message(payload@, m),
{
    let f = match icmpv4_slice(payload) {
        Some(f) => f,
        None => {
            return Err(IcmpParseError::MalformedV4);
        },
    };
    let t = translate_v4(&f);
    Ok(IcmpMessage::new(IcmpFamily::V4, IcmpType::V4(t)))
}

/// The ICMPv4 registry (RFC 792 and RFC 950) as a parsed message shows
/// it, read off the payload's type byte `p[0]` and code byte `p[1]`:
/// echo reply 0 and echo request 8 carry the identifier and sequence
/// number of bytes 4 to 7; time exceeded 11 is "TTL exceeded in transit"
/// for code 0 and "fragment reassembly time exceeded" for code 1;
/// destination unreachable 3 names its sixteen codes, and code 4 carries
/// the next-hop MTU of bytes 6 and 7; redirect 5 names its four codes;
/// parameter problem 12 takes its pointer from byte 4 for code 0 only;
/// a redirect carries the gateway of bytes 4 to 7; the timestamps carry
/// the identifier, sequence number and three times of bytes 4 to 19; an
/// error message quotes the flow of the IPv4 header after its own eight
/// bytes; a type or code outside these is kept raw, with every byte after
/// the code and checksum.
pub proof fn lemma_v4_registry(p: Seq<u8>, m: IcmpMessage)
    requires
        v4_message(p, m),
    ensures
        m.family == IcmpFamily::V4,
        p[0] == 0 && p[1] == 0 ==> (m.ty matches IcmpType::V4(Icmpv4Type::EchoReply { id, seq })
            && id == p[4] * 256 + p[5] && seq == p[6] * 256 + p[7]),
        p[0] == 8 && p[1] == 0 ==> (m.ty matches IcmpType::V4(Icmpv4Type::EchoRequest { id, seq })
            && id == p[4] * 256 + p[5] && seq == p[6] * 256 + p[7]),
        p[0] == 11 && p[1] == 0 ==> (m.ty matches IcmpType::V4(
            Icmpv4Type::TimeExceeded { code: Icmpv4TimeExceededCode::HopLimitExceeded, .. },
        )),
        p[0] == 11 && p[1] == 1 ==> (m.ty matches IcmpType::V4(
            Icmpv4Type::TimeExceeded {
                code: Icmpv4TimeExceededCode::FragmentReassemblyTimeExceeded,
                ..
            },
        )),
        p[0] == 3 && p[1] == 0 ==> (m.ty matches IcmpType::V4(
            Icmpv4Type::DestinationUnreachable { code: Icmpv4DestUnreachCode::Net, .. },
        )),
        p[0] == 3 && p[1] == 1 ==> (m.ty matches IcmpType::V4(
            Icmpv4Type::DestinationUnreachable { code: Icmpv4DestUnreachCode::Host, .. },
        )),
        p[0] == 3 && p[1] == 2 ==> (m.ty matches IcmpType::V4(
            Icmpv4Type::DestinationUnreachable { code: Icmpv4DestUnreachCode::Protocol, .. },
        )),
        p[0] == 3 && p[1] == 3 ==> (m.ty matches IcmpType::V4(
            Icmpv4Type::DestinationUnreachable { code: Icmpv4DestUnreachCode::Port, .. },
        )),
        p[0] == 3 && p[1] == 4 ==> (m.ty matches IcmpType::V4(
            Icmpv4Type::DestinationUnreachable {
                code: Icmpv4DestUnreachCode::FragmentationNeeded { mtu: Some(mtu) },
                ..
            },
        ) && mtu == p[6] * 256 + p[7]),
        p[0] == 3 && p[1] == 5 ==> (m.ty matches IcmpType::V4(
            Icmpv4Type::DestinationUnreachable {
                code: Icmpv4DestUnreachCode::SourceRouteFailed,
                ..
            },
        )),
        p[0] == 3 && p[1] == 6 ==> (m.ty matches IcmpType::V4(
            Icmpv4Type::DestinationUnreachable {
                code: Icmpv4DestUnreachCode::DestNetworkUnknown,
                ..
            },
        )),
        p[0] == 3 && p[1] == 7 ==> (m.ty matches IcmpType::V4(
            Icmpv4Type::DestinationUnreachable { code: Icmpv4DestUnreachCode::DestHostUnknown, .. },
        )),
        p[0] == 3 && p[1] == 8 ==> (m.ty matches IcmpType::V4(
            Icmpv4Type::DestinationUnreachable {
                code: Icmpv4DestUnreachCode::SourceHostIsolated,
                ..
            },
        )),
        p[0] == 3 && p[1] == 9 ==> (m.ty matches IcmpType::V4(
            Icmpv4Type::DestinationUnreachable {
                code: Icmpv4DestUnreachCode::NetworkProhibited,
                ..
            },
        )),
        p[0] == 3 && p[1] == 10 ==> (m.ty matches IcmpType::V4(
            Icmpv4Type::DestinationUnreachable { code: Icmpv4DestUnreachCode::HostProhibited, .. },
        )),
        p[0] == 3 && p[1] == 11 ==> (m.ty matches IcmpType::V4(
            Icmpv4Type::DestinationUnreachable { code: Icmpv4DestUnreachCode::NetworkTos, .. },
        )),
        p[0] == 3 && p[1] == 12 ==> (m.ty matches IcmpType::V4(
            Icmpv4Type::DestinationUnreachable { code: Icmpv4DestUnreachCode::HostTos, .. },
        )),
        p[0] == 3 && p[1] == 13 ==> (m.ty matches IcmpType::V4(
            Icmpv4Type::DestinationUnreachable {
                code: Icmpv4DestUnreachCode::CommunicationProhibited,
                ..
            },
        )),
        p[0] == 3 && p[1] == 14 ==> (m.ty matches IcmpType::V4(
            Icmpv4Type::DestinationUnreachable {
                code: Icmpv4DestUnreachCode::HostPrecedenceViolation,
                ..
            },
        )),
        p[0] == 3 && p[1] == 15 ==> (m.ty matches IcmpType::V4(
            Icmpv4Type::DestinationUnreachable {
                code: Icmpv4DestUnreachCode::PrecedenceCutoffInEffect,
                ..
            },
        )),
        p[0] == 5 && p[1] == 0 ==> (m.ty matches IcmpType::V4(
            Icmpv4Type::Redirect { code: Icmpv4RedirectCode::Network, .. },
        )),
        p[0] == 5 && p[1] == 1 ==> (m.ty matches IcmpType::V4(
            Icmpv4Type::Redirect { code: Icmpv4RedirectCode::Host, .. },
        )),
        p[0] == 5 && p[1] == 2 ==> (m.ty matches IcmpType::V4(
            Icmpv4Type::Redirect { code: Icmpv4RedirectCode::Tos, .. },
        )),
        p[0] == 5 && p[1] == 3 ==> (m.ty matches IcmpType::V4(
            Icmpv4Type::Redirect { code: Icmpv4RedirectCode::TosHost, .. },
        )),
        p[0] == 12 && p[1] == 0 ==> (m.ty matches IcmpType::V4(
            Icmpv4Type::ParameterProblem { pointer, .. },
        ) && pointer == p[4]),
        p[0] == 12 && (p[1] == 1 || p[1] == 2) ==> (m.ty matches IcmpType::V4(
            Icmpv4Type::ParameterProblem { pointer, .. },
        ) && pointer == 0),
        p[0] == 5 && p[1] <= 3 ==> (m.ty matches IcmpType::V4(Icmpv4Type::Redirect { gateway, .. })
            && gateway == ((p[4] * 256 + p[5]) * 256 + p[6]) * 256 + p[7]),
        p[0] == 3 && p[1] <= 15 ==> (m.ty matches IcmpType::V4(
            Icmpv4Type::DestinationUnreachable { inner, .. },
        ) && inner == inner_of(ipv4_header_spec(p.skip(8)), p.skip(8))),
        p[0] == 5 && p[1] <= 3 ==> (m.ty matches IcmpType::V4(Icmpv4Type::Redirect { inner, .. })
            && inner == inner_of(ipv4_header_spec(p.skip(8)), p.skip(8))),
        p[0] == 11 && p[1] <= 1 ==> (m.ty matches IcmpType::V4(Icmpv4Type::TimeExceeded { inner, .. })
            && inner == inner_of(ipv4_header_spec(p.skip(8)), p.skip(8))),
        p[0] == 12 && p[1] <= 2 ==> (m.ty matches IcmpType::V4(
            Icmpv4Type::ParameterProblem { inner, .. },
        ) && inner == inner_of(ipv4_header_spec(p.skip(8)), p.skip(8))),
        p[0] == 13 && p[1] == 0 ==> (m.ty matches IcmpType::V4(
            Icmpv4Type::Timestamp { id, seq, originate, receive, transmit },
        ) && id == p[4] * 256 + p[5] && seq == p[6] * 256 + p[7] && originate == ((p[8] * 256
            + p[9]) * 256 + p[10]) * 256 + p[11] && receive == ((p[12] * 256 + p[13]) * 256 + p[14])
            * 256 + p[15] && transmit == ((p[16] * 256 + p[17]) * 256 + p[18]) * 256 + p[19]),
        p[0] == 14 && p[1] == 0 ==> (m.ty matches IcmpType::V4(
            Icmpv4Type::TimestampReply { id, seq, originate, receive, transmit },
        ) && id == p[4] * 256 + p[5] && seq == p[6] * 256 + p[7] && originate == ((p[8] * 256
            + p[9]) * 256 + p[10]) * 256 + p[11] && receive == ((p[12] * 256 + p[13]) * 256 + p[14])
            * 256 + p[15] && transmit == ((p[16] * 256 + p[17]) * 256 + p[18]) * 256 + p[19]),
        !(p[0] == 0 || p[0] == 8 || p[0] == 13 || p[0] == 14) || p[1] != 0 ==> (
        (p[0] == 3 && p[1] <= 15) || (p[0] == 5 && p[1] <= 3) || (p[0] == 11 && p[1] <= 1) || (
        p[0] == 12 && p[1] <= 2) || (m.ty matches IcmpType::V4(
            Icmpv4Type::Other { raw_type, raw_code, raw_body },
        ) && raw_type == p[0] && raw_code == p[1] && raw_body@ == p.skip(4))),
{
    let h = p.take(v4_header_len(p));
    let b = p.skip(v4_header_len(p));
    assert(h[0] == p[0] && h[1] == p[1] && h[4] == p[4] && h[5] == p[5] && h[6] == p[6] && h[7]
        == p[7]);
    if (p[0] == 13 || p[0] == 14) && p[1] == 0 {
        assert(h[8] == p[8] && h[9] == p[9] && h[10] == p[10] && h[11] == p[11]);
        assert(h[12] == p[12] && h[13] == p[13] && h[14] == p[14] && h[15] == p[15]);
        assert(h[16] == p[16] && h[17] == p[17] && h[18] == p[18] && h[19] == p[19]);
    } else {
        assert(h.subrange(4, 8) + b =~= p.skip(4));
    }
}

// ── ICMPv6 ────────────────────────────────────────────────────────

/// The Destination Unreachable code `c` (0 to 6).
pub open spec fn v6_unreach_code(c: u8) -> Icmpv6DestUnreachCode {
    match c {
        0 => Icmpv6DestUnreachCode::NoRoute,
        1 => Icmpv6DestUnreachCode::AdminProhibited,
        2 => Icmpv6DestUnreachCode::BeyondScopeOfSource,
        3 => Icmpv6DestUnreachCode::AddressUnreachable,
        4 => Icmpv6DestUnreachCode::PortUnreachable,
        5 => Icmpv6DestUnreachCode::SourceAddressFailedIngressPolicy,
        _ => Icmpv6DestUnreachCode::RejectRouteToDestination,
    }
}

fn v6_unreach_code_of(c: u8) -> (r: Icmpv6DestUnreachCode)
    ensures
        r == v6_unreach_code(c),
{
    match c {
        0 => Icmpv6DestUnreachCode::NoRoute,
        1 => Icmpv6DestUnreachCode::AdminProhibited,
        2 => Icmpv6DestUnreachCode::BeyondScopeOfSource,
        3 => Icmpv6DestUnreachCode::AddressUnreachable,
        4 => Icmpv6DestUnreachCode::PortUnreachable,
        5 => Icmpv6DestUnreachCode::SourceAddressFailedIngressPolicy,
        _ => Icmpv6DestUnreachCode::RejectRouteToDestination,
    }
}

/// The Parameter Problem code `c` (0 to 10): the first three are named,
/// the rest kept as numbers.
pub open spec fn v6_param_code(c: u8) -> Icmpv6ParamProblemCode {
    match c {
        0 => Icmpv6ParamProblemCode::ErroneousHeaderField,
        1 => Icmpv6ParamProblemCode::UnrecognizedNextHeaderType,
        2 => Icmpv6ParamProblemCode::UnrecognizedIpv6Option,
        _ => Icmpv6ParamProblemCode::Other(c),
    }
}

/// The target address of a neighbor message: the first sixteen bytes
/// of its body.
pub open spec fn target_of(b: Seq<u8>) -> u128 {
    be_value(b.take(16)) as u128
}

/// The ICMPv6 type for a header `h` and rest `b`, by type and code:
/// destination unreachable (1) with codes 0 to 6; packet too big (2)
/// with code 0; time exceeded (3) with codes 0 and 1; parameter problem
/// (4) with codes 0 to 10; echo (128, 129) with code 0; neighbor
/// solicitation (135) and advertisement (136) with at least a target
/// address in the body. Error messages carry the flow they quote.
/// Anything else is kept raw.
pub open spec fn translates_v6(h: Seq<u8>, b: Seq<u8>, t: Icmpv6Type) -> bool {
    let ty = h[0];
    let c = h[1];
    if ty == 1 && c <= 6 {
        t == Icmpv6Type::DestinationUnreachable {
            code: v6_unreach_code(c),
            inner: inner_of(ipv6_header_spec(b), b),
        }
    } else if ty == 2 && c == 0 {
        t == Icmpv6Type::PacketTooBig { mtu: be32(h, 4), inner: inner_of(ipv6_header_spec(b), b) }
    } else if ty == 3 && c <= 1 {
        t == Icmpv6Type::TimeExceeded {
            code: if c == 0 {
                Icmpv6TimeExceededCode::HopLimitExceeded
            } else {
                Icmpv6TimeExceededCode::FragmentReassemblyTimeExceeded
            },
            inner: inner_of(ipv6_header_spec(b), b),
        }
    } else if ty == 4 && c <= 10 {
        t == Icmpv6Type::ParameterProblem {
            code: v6_param_code(c),
            pointer: be32(h, 4),
            inner: inner_of(ipv6_header_spec(b), b),
        }
    } else if ty == 128 && c == 0 {
        t == Icmpv6Type::EchoRequest { id: be16(h, 4), seq: be16(h, 6) }
    } else if ty == 129 && c == 0 {
        t == Icmpv6Type::EchoReply { id: be16(h, 4), seq: be16(h, 6) }
    } else if ty == 135 && b.len() >= 16 {
        t == Icmpv6Type::NeighborSolicitation { target: target_of(b) }
    } else if ty == 136 && b.len() >= 16 {
        t == Icmpv6Type::NeighborAdvertisement {
            target: target_of(b),
            router: h[4] >= 128,
            solicited: (h[4] / 64) % 2 == 1,
            override_: (h[4] / 32) % 2 == 1,
        }
    } else {
        t matches Icmpv6Type::Other { raw_type, raw_code, raw_body } && raw_type == ty && raw_code
            == c && raw_body@ == h.subrange(4, 8) + b
    }
}

/// The target address of a neighbor message body.
fn target_from(b: &[u8]) -> (r: u128)
    requires
        b@.len() >= 16,
    ensures
        r == target_of(b@),
{
    let v = copy16(b);
    match address(&v) {
        Some(IpAddr::V6(a)) => a,
        _ => 0,
    }
}

fn copy16(b: &[u8]) -> (v: Vec<u8>)
    requires
        b@.len() >= 16,
    ensures
        v@ == b@.take(16),
{
    let mut v: Vec<u8> = Vec::new();
    v.extend_from_slice(&b[0..16]);
    assert(v@ =~= b@.take(16));
    v
}

/// Read an ICMPv6 header and rest into a type, as [`translates_v6`]
/// says.
pub fn translate_v6(f: &IcmpFields) -> (t: Icmpv6Type)
    requires
        f.header@.len() >= 8,
    ensures
        translates_v6(f.header@, f.body@, t),
{
    let h = f.header.as_slice();
    let b = f.body.as_slice();
    let ty = h[0];
    let c = h[1];
    if ty == 1 && c <= 6 {
        Icmpv6Type::DestinationUnreachable { code: v6_unreach_code_of(c), inner: parse_inner_v6(b) }
    } else if ty == 2 && c == 0 {
        Icmpv6Type::PacketTooBig { mtu: read32(h, 4), inner: parse_inner_v6(b) }
    } else if ty == 3 && c <= 1 {
        let code = if c == 0 {
            Icmpv6TimeExceededCode::HopLimitExceeded
        } else {
            Icmpv6TimeExceededCode::FragmentReassemblyTimeExceeded
        };
        Icmpv6Type::TimeExceeded { code, inner: parse_inner_v6(b) }
    } else if ty == 4 && c <= 10 {
        let code = match c {
            0 => Icmpv6ParamProblemCode::ErroneousHeaderField,
            1 => Icmpv6ParamProblemCode::UnrecognizedNextHeaderType,
            2 => Icmpv6ParamProblemCode::UnrecognizedIpv6Option,
            _ => Icmpv6ParamProblemCode::Other(c),
        };
        Icmpv6Type::ParameterProblem { code, pointer: read32(h, 4), inner: parse_inner_v6(b) }
    } else if ty == 128 && c == 0 {
        Icmpv6Type::EchoRequest { id: read16(h, 4), seq: read16(h, 6) }
    } else if ty == 129 && c == 0 {
        Icmpv6Type::EchoReply { id: read16(h, 4), seq: read16(h, 6) }
    } else if ty == 135 && b.len() >= 16 {
        Icmpv6Type::NeighborSolicitation { target: target_from(b) }
    } else if ty == 136 && b.len() >= 16 {
        let flags = h[4];
        Icmpv6Type::NeighborAdvertisement {
            target: target_from(b),
            router: flags >= 128,
            solicited: (flags / 64) % 2 == 1,
            override_: (flags / 32) % 2 == 1,
        }
    } else {
        Icmpv6Type::Other { raw_type: ty, raw_code: c, raw_body: raw_tail(h, b) }
    }
}

/// `m` is the ICMPv6 message that `payload` carries.
pub open spec fn v6_message(payload: Seq<u8>, m: IcmpMessage) -> bool {
    match etherparse_icmpv6(payload) {
        None => false,
        Some((h, b)) => m.family == IcmpFamily::V6 && (m.ty matches IcmpType::V6(t)
            && translates_v6(h, b, t)),
    }
}

/// Parse an ICMPv6 payload: an error exactly when etherparse refuses
/// it, else its message as [`translates_v6`] reads it.
pub fn parse_v6(payload: &[u8]) -> (r: Result<IcmpMessage, IcmpParseError>)
    ensures
        r is Err <==> etherparse_icmpv6(payload@) is None,
        r matches Err(e) ==> e == IcmpParseError::MalformedV6,
        r matches Ok(m) ==> v6_message(payload@, m),
{
    let f = match icmpv6_slice(payload) {
        Some(f) => f,
        None => {
            return Err(IcmpParseError::MalformedV6);
        },
    };
    let t = translate_v6(&f);
    Ok(IcmpMessage::new(IcmpFamily::V6, IcmpType::V6(t)))
}

/// The ICMPv6 registry (RFC 4443 and RFC 4861) as a parsed message
/// shows it, read off the payload's type byte `p[0]` and code byte
/// `p[1]`: destination unreachable 1 names its seven codes; packet too
/// big 2 carries the MTU of bytes 4 to 7; time exceeded 3 is "hop limit
/// exceeded in transit" for code 0 and "fragment reassembly time
/// exceeded" for code 1; parameter problem 4 names codes 0 to 2 and keeps
/// 3 to 10 as numbers; echo request is 128 and echo reply 129, with the
/// identifier and sequence number of bytes 4 to 7; neighbor solicitation
/// 135 and advertisement 136 need a target address after the header, and
/// an advertisement's flags are the top three bits of byte 4; a parameter
/// problem points at bytes 4 to 7; an error message quotes the flow of
/// the IPv6 header after its own eight bytes; a type or code outside
/// these is kept raw, with every byte after the code and checksum.
pub proof fn lemma_v6_registry(p: Seq<u8>, m: IcmpMessage)
    requires
        v6_message(p, m),
    ensures
        m.family == IcmpFamily::V6,
        p[0] == 1 && p[1] == 0 ==> (m.ty matches IcmpType::V6(
            Icmpv6Type::DestinationUnreachable { code: Icmpv6DestUnreachCode::NoRoute, .. },
        )),
        p[0] == 1 && p[1] == 1 ==> (m.ty matches IcmpType::V6(
            Icmpv6Type::DestinationUnreachable { code: Icmpv6DestUnreachCode::AdminProhibited, .. },
        )),
        p[0] == 1 && p[1] == 2 ==> (m.ty matches IcmpType::V6(
            Icmpv6Type::DestinationUnreachable {
                code: Icmpv6DestUnreachCode::BeyondScopeOfSource,
                ..
            },
        )),
        p[0] == 1 && p[1] == 3 ==> (m.ty matches IcmpType::V6(
            Icmpv6Type::DestinationUnreachable {
                code: Icmpv6DestUnreachCode::AddressUnreachable,
                ..
            },
        )),
        p[0] == 1 && p[1] == 4 ==> (m.ty matches IcmpType::V6(
            Icmpv6Type::DestinationUnreachable { code: Icmpv6DestUnreachCode::PortUnreachable, .. },
        )),
        p[0] == 1 && p[1] == 5 ==> (m.ty matches IcmpType::V6(
            Icmpv6Type::DestinationUnreachable {
                code: Icmpv6DestUnreachCode::SourceAddressFailedIngressPolicy,
                ..
            },
        )),
        p[0] == 1 && p[1] == 6 ==> (m.ty matches IcmpType::V6(
            Icmpv6Type::DestinationUnreachable {
                code: Icmpv6DestUnreachCode::RejectRouteToDestination,
                ..
            },
        )),
        p[0] == 2 && p[1] == 0 ==> (m.ty matches IcmpType::V6(Icmpv6Type::PacketTooBig { mtu, .. })
            && mtu == ((p[4] * 256 + p[5]) * 256 + p[6]) * 256 + p[7]),
        p[0] == 3 && p[1] == 0 ==> (m.ty matches IcmpType::V6(
            Icmpv6Type::TimeExceeded { code: Icmpv6TimeExceededCode::HopLimitExceeded, .. },
        )),
        p[0] == 3 && p[1] == 1 ==> (m.ty matches IcmpType::V6(
            Icmpv6Type::TimeExceeded {
                code: Icmpv6TimeExceededCode::FragmentReassemblyTimeExceeded,
                ..
            },
        )),
        p[0] == 4 && p[1] == 0 ==> (m.ty matches IcmpType::V6(
            Icmpv6Type::ParameterProblem { code: Icmpv6ParamProblemCode::ErroneousHeaderField, .. },
        )),
        p[0] == 4 && p[1] == 1 ==> (m.ty matches IcmpType::V6(
            Icmpv6Type::ParameterProblem {
                code: Icmpv6ParamProblemCode::UnrecognizedNextHeaderType,
                ..
            },
        )),
        p[0] == 4 && p[1] == 2 ==> (m.ty matches IcmpType::V6(
            Icmpv6Type::ParameterProblem {
                code: Icmpv6ParamProblemCode::UnrecognizedIpv6Option,
                ..
            },
        )),
        p[0] == 4 && 3 <= p[1] <= 10 ==> (m.ty matches IcmpType::V6(
            Icmpv6Type::ParameterProblem { code: Icmpv6ParamProblemCode::Other(c), .. },
        ) && c == p[1]),
        p[0] == 128 && p[1] == 0 ==> (m.ty matches IcmpType::V6(
            Icmpv6Type::EchoRequest { id, seq },
        ) && id == p[4] * 256 + p[5] && seq == p[6] * 256 + p[7]),
        p[0] == 129 && p[1] == 0 ==> (m.ty matches IcmpType::V6(Icmpv6Type::EchoReply { id, seq })
            && id == p[4] * 256 + p[5] && seq == p[6] * 256 + p[7]),
        p[0] == 135 && p.len() >= 24 ==> (m.ty matches IcmpType::V6(
            Icmpv6Type::NeighborSolicitation { .. },
        )),
        p[0] == 136 && p.len() >= 24 ==> (m.ty matches IcmpType::V6(
            Icmpv6Type::NeighborAdvertisement { router, solicited, override_, .. },
        ) && router == (p[4] >= 128) && solicited == ((p[4] / 64) % 2 == 1) && override_ == ((p[4]
            / 32) % 2 == 1)),
        p[0] == 4 && p[1] <= 10 ==> (m.ty matches IcmpType::V6(
            Icmpv6Type::ParameterProblem { pointer, .. },
        ) && pointer == ((p[4] * 256 + p[5]) * 256 + p[6]) * 256 + p[7]),
        p[0] == 1 && p[1] <= 6 ==> (m.ty matches IcmpType::V6(
            Icmpv6Type::DestinationUnreachable { inner, .. },
        ) && inner == inner_of(ipv6_header_spec(p.skip(8)), p.skip(8))),
        p[0] == 2 && p[1] == 0 ==> (m.ty matches IcmpType::V6(Icmpv6Type::PacketTooBig { inner, .. })
            && inner == inner_of(ipv6_header_spec(p.skip(8)), p.skip(8))),
        p[0] == 3 && p[1] <= 1 ==> (m.ty matches IcmpType::V6(Icmpv6Type::TimeExceeded { inner, .. })
            && inner == inner_of(ipv6_header_spec(p.skip(8)), p.skip(8))),
        p[0] == 4 && p[1] <= 10 ==> (m.ty matches IcmpType::V6(
            Icmpv6Type::ParameterProblem { inner, .. },
        ) && inner == inner_of(ipv6_header_spec(p.skip(8)), p.skip(8))),
        (p[0] == 135 || p[0] == 136) && p.len() >= 24 ==> (match m.ty {
            IcmpType::V6(Icmpv6Type::NeighborSolicitation { target }) => target == target_of(
                p.skip(8),
            ),
            IcmpType::V6(Icmpv6Type::NeighborAdvertisement { target, .. }) => target == target_of(
                p.skip(8),
            ),
            _ => false,
        }),
        !((p[0] == 1 && p[1] <= 6) || (p[0] == 2 && p[1] == 0) || (p[0] == 3 && p[1] <= 1) || (
        p[0] == 4 && p[1] <= 10) || ((p[0] == 128 || p[0] == 129) && p[1] == 0) || ((p[0] == 135
            || p[0] == 136) && p.len() >= 24)) ==> (m.ty matches IcmpType::V6(
            Icmpv6Type::Other { raw_type, raw_code, raw_body },
        ) && raw_type == p[0] && raw_code == p[1] && raw_body@ == p.skip(4)),
{
    let h = p.take(8);
    let b = p.skip(8);
    assert(h[0] == p[0] && h[1] == p[1] && h[4] == p[4] && h[5] == p[5] && h[6] == p[6] && h[7]
        == p[7]);
    assert(b.len() == p.len() - 8);
    assert(h.subrange(4, 8) + b =~= p.skip(4));
}

/// The IANA protocol numbers of the transports a quoted flow names: TCP
/// is 6, UDP 17, ICMP 1, ICMPv6 58 and SCTP 132; any other number is
/// kept as it is.
pub proof fn lemma_protocol_numbers(p: u8)
    ensures
        l4_of(p) == L4Proto::Tcp <==> p == 6,
        l4_of(p) == L4Proto::Udp <==> p == 17,
        l4_of(p) == L4Proto::Icmp <==> p == 1,
        l4_of(p) == L4Proto::IcmpV6 <==> p == 58,
        l4_of(p) == L4Proto::Sctp <==> p == 132,
        l4_of(p) is Other ==> l4_of(p) == L4Proto::Other(p),
{
}

} // verus!
