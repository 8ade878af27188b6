//! [`InnerGre`]: key the flow inside a GRE tunnel.
//!
//! GRE carries an inner packet over IP protocol 47 behind a four-byte
//! header (flags and version, then the inner ethertype) and optional
//! four-byte checksum, key and sequence fields. Inner IPv4 and IPv6
//! packets get a synthetic Ethernet header; bridged Ethernet frames are
//! passed on as they are.

use vstd::prelude::*;

use super::parse::{parse_eth, parse_eth_spec};
use super::{Extracted, FlowExtractor, PacketView};

verus! {

/// IP protocol number of GRE.
pub const GRE_IP_PROTO: u8 = 47;

/// Ethertype of IPv4.
const ETH_IPV4: u16 = 0x0800;

/// Ethertype of IPv6.
const ETH_IPV6: u16 = 0x86dd;

/// Ethertype of transparent Ethernet bridging: the inner packet is a
/// whole Ethernet frame.
const ETH_TEB: u16 = 0x6558;

/// The GRE header's length: four bytes, and four more for each of the
/// checksum (`0x80`), key (`0x20`) and sequence (`0x10`) flags.
pub open spec fn gre_header_len(flags: u8) -> int {
    4 + (if flags & 0x80 != 0 {
        4int
    } else {
        0int
    }) + (if flags & 0x20 != 0 {
        4int
    } else {
        0int
    }) + (if flags & 0x10 != 0 {
        4int
    } else {
        0int
    })
}

/// A GRE packet's inner ethertype and the bytes after its header;
/// `None` when it is shorter than its header or not version 0.
pub open spec fn peel_gre_spec(b: Seq<u8>) -> Option<(u16, Seq<u8>)> {
    if b.len() < 4 {
        None
    } else if b[1] & 0x07 != 0 {
        None
    } else if b.len() < gre_header_len(b[0]) {
        None
    } else {
        Some(((b[2] as int * 256 + b[3] as int) as u16, b.skip(gre_header_len(b[0]))))
    }
}

/// The frame an inner packet makes: a bridged Ethernet frame as it is;
/// an IPv4 or IPv6 packet behind twelve zero address bytes and its
/// ethertype; nothing for an empty packet or another ethertype.
pub open spec fn synthesize_eth_spec(ethertype: u16, inner: Seq<u8>) -> Option<Seq<u8>> {
    if inner.len() == 0 {
        None
    } else if ethertype == 0x6558 {
        Some(inner)
    } else if ethertype != 0x0800 && ethertype != 0x86dd {
        None
    } else {
        Some(Seq::new(12, |i: int| 0u8) + seq![(ethertype / 256) as u8, (ethertype % 256) as u8] + inner)
    }
}

/// The frame inside a GRE tunnel: the IP payload of a protocol-47
/// packet, its GRE header peeled off, made a frame.
pub open spec fn gre_inner_frame(frame: Seq<u8>) -> Option<Seq<u8>> {
    match parse_eth_spec(frame) {
        Some((Some((_, _, p, payload)), _)) => if p != 47 {
            None
        } else {
            match peel_gre_spec(payload) {
                Some((ethertype, rest)) => synthesize_eth_spec(ethertype, rest),
                None => None,
            }
        },
        _ => None,
    }
}

/// Peel the GRE header off an IP payload.
pub fn peel_gre(bytes: &[u8]) -> (r: Option<(u16, &[u8])>)
    ensures
        match peel_gre_spec(bytes@) {
            None => r is None,
            Some((t, rest)) => r matches Some((t2, rest2)) && t2 == t && rest2@ == rest,
        },
{
    if bytes.len() < 4 {
        return None;
    }
    let flags_hi = bytes[0];
    let flags_lo = bytes[1];
    if flags_lo & 0x07 != 0 {
        return None;
    }
    let ethertype: u16 = bytes[2] as u16 * 256 + bytes[3] as u16;
    let mut header_len: usize = 4;
    if flags_hi & 0x80 != 0 {
        header_len += 4;
    }
    if flags_hi & 0x20 != 0 {
        header_len += 4;
    }
    if flags_hi & 0x10 != 0 {
        header_len += 4;
    }
    if bytes.len() < header_len {
        return None;
    }
    Some((ethertype, &bytes[header_len..bytes.len()]))
}

/// Make a frame of an inner packet.
pub fn synthesize_eth(ethertype: u16, inner: &[u8]) -> (r: Option<Vec<u8>>)
    ensures
        match synthesize_eth_spec(ethertype, inner@) {
            None => r is None,
            Some(f) => r matches Some(v) && v@ == f,
        },
{
    if inner.len() == 0 {
        return None;
    }
    if ethertype == ETH_TEB {
        return Some(crate::text::copy_bytes(inner));
    }
    if ethertype != ETH_IPV4 && ethertype != ETH_IPV6 {
        return None;
    }
    let mut out: Vec<u8> = Vec::new();
    let mut i: usize = 0;
    while i < 12
        invariant
            i <= 12,
            out@ == Seq::new(i as nat, |j: int| 0u8),
        decreases 12 - i,
    {
        out.push(0);
        assert(out@ =~= Seq::new((i + 1) as nat, |j: int| 0u8));
        i += 1;
    }
    out.push((ethertype / 256) as u8);
    out.push((ethertype % 256) as u8);
    let ghost head = out@;
    out.extend_from_slice(inner);
    assert(out@ =~= Seq::new(12, |j: int| 0u8) + seq![(ethertype / 256) as u8, (ethertype % 256) as u8] + inner@);
    Some(out)
}

/// Run `e` on the frame inside a packet's GRE tunnel.
pub fn gre_extract<E: FlowExtractor>(e: &E, view: PacketView) -> (r: Option<Extracted<E::Key>>)
    ensures
        match gre_inner_frame(view.frame@) {
            None => r is None,
            Some(inner) => e.extracts(inner, r),
        },
{
    let parsed = match parse_eth(view.frame) {
        Some(p) => p,
        None => return None,
    };
    let ip = match &parsed.ip {
        Some(ip) => ip,
        None => return None,
    };
    if ip.proto != GRE_IP_PROTO {
        return None;
    }
    let (ethertype, after) = match peel_gre(ip.l4_payload.as_slice()) {
        Some(x) => x,
        None => return None,
    };
    let synthetic = match synthesize_eth(ethertype, after) {
        Some(f) => f,
        None => return None,
    };
    e.extract(PacketView { frame: synthetic.as_slice(), timestamp: view.timestamp })
}

/// Decapsulate GRE and key the inner frame with `extractor`.
#[derive(Debug, Clone, Copy)]
pub struct InnerGre<E> {
    pub extractor: E,
}

impl<E> InnerGre<E> {
    /// Wrap `extractor`.
    pub fn new(extractor: E) -> (g: Self)
        ensures
            g.extractor == extractor,
    {
        InnerGre { extractor }
    }
}

impl<E: FlowExtractor> FlowExtractor for InnerGre<E> {
    type Key = E::Key;

    open spec fn extracts(&self, frame: Seq<u8>, r: Option<Extracted<E::Key>>) -> bool {
        match gre_inner_frame(frame) {
            None => r is None,
            Some(inner) => self.extractor.extracts(inner, r),
        }
    }

    fn extract(&self, view: PacketView) -> (r: Option<Extracted<E::Key>>) {
        gre_extract(&self.extractor, view)
    }
}

} // verus!
