//! [`FlowLabel`]: add the IPv6 flow label to a flow key, so flows that
//! share a 5-tuple but not a label stay apart. IPv4 packets get label
//! zero.

use vstd::prelude::*;

use crate::net::IpAddr;

use super::parse::{parse_eth, parse_eth_spec};
use super::{Extracted, FlowExtractor, PacketView};

verus! {

/// What `etherparse` reads as a frame's IPv6 flow label: `None` for a
/// frame that does not parse or has no IPv6 header.
pub uninterp spec fn ethernet_flow_label(frame: Seq<u8>) -> Option<u32>;

/// Slices a frame with `etherparse::SlicedPacket::from_ethernet` and
/// reads its IPv6 header's flow label (`Ipv6FlowLabel::value`). The
/// result is named: nothing is claimed of it but that it depends on the
/// frame.
#[verifier::external_body]
fn ipv6_flow_label(frame: &[u8]) -> (r: Option<u32>)
    ensures
        r == ethernet_flow_label(frame@),
{
    match etherparse::SlicedPacket::from_ethernet(frame).ok()?.net? {
        etherparse::NetSlice::Ipv6(v6) => Some(v6.header().flow_label().value()),
        _ => None,
    }
}

/// A frame's flow label: its IPv6 header's, zero for anything else.
pub open spec fn flow_label_of(frame: Seq<u8>) -> u32 {
    match parse_eth_spec(frame) {
        Some((Some((IpAddr::V6(_), _, _, _)), _)) => match ethernet_flow_label(frame) {
            Some(l) => l,
            None => 0,
        },
        _ => 0,
    }
}

/// Read a frame's flow label.
pub fn read_flow_label(frame: &[u8]) -> (l: u32)
    ensures
        l == flow_label_of(frame@),
{
    match parse_eth(frame) {
        Some(p) => match &p.ip {
            Some(ip) => match ip.src {
                IpAddr::V6(_) => match ipv6_flow_label(frame) {
                    Some(l) => l,
                    None => 0,
                },
                IpAddr::V4(_) => 0,
            },
            None => 0,
        },
        None => 0,
    }
}

/// An inner key with a flow label.
#[derive(Debug, Clone, Copy, PartialEq, Eq, Hash)]
pub struct FlowLabelKey<K> {
    pub inner: K,
    pub label: u32,
}

/// Add the flow label to `extractor`'s key.
#[derive(Debug, Clone, Copy)]
pub struct FlowLabel<E> {
    pub extractor: E,
}

impl<E> FlowLabel<E> {
    /// Wrap `extractor`.
    pub fn new(extractor: E) -> (f: Self)
        ensures
            f.extractor == extractor,
    {
        FlowLabel { extractor }
    }
}

/// The extraction with the label added to the key.
pub open spec fn labelled<K>(x: Option<Extracted<K>>, label: u32) -> Option<Extracted<FlowLabelKey<K>>> {
    match x {
        None => None,
        Some(e) => Some(
            Extracted { key: FlowLabelKey { inner: e.key, label }, orientation: e.orientation, l4: e.l4, tcp: e.tcp },
        ),
    }
}

impl<E: FlowExtractor> FlowExtractor for FlowLabel<E> {
    type Key = FlowLabelKey<E::Key>;

    open spec fn extracts(&self, frame: Seq<u8>, r: Option<Extracted<FlowLabelKey<E::Key>>>) -> bool {
        exists|x: Option<Extracted<E::Key>>| #[trigger] self.extractor.extracts(frame, x) && r == labelled(x, flow_label_of(frame))
    }

    fn extract(&self, view: PacketView) -> (r: Option<Extracted<FlowLabelKey<E::Key>>>) {
        let x = self.extractor.extract(view);
        let r = match x {
            None => None,
            Some(e) => {
                let label = read_flow_label(view.frame);
                Some(Extracted { key: FlowLabelKey { inner: e.key, label }, orientation: e.orientation, l4: e.l4, tcp: e.tcp })
            },
        };
        assert(self.extractor.extracts(view.frame@, x));
        r
    }
}

} // verus!
