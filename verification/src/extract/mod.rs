//! Flow extractors: what identifies a packet's flow, and which way the
//! packet travels in it. [`FiveTuple`] keys a flow by protocol and both
//! endpoints; [`InnerGre`] keys the flow inside a GRE tunnel;
//! [`FlowLabel`] adds the IPv6 flow label; [`Tagged`] adds a caller's
//! tag; [`AutoDetectEncap`] tries the plain frame, then its tunnel.

use vstd::prelude::*;

use crate::event::{L4Proto, Orientation, Timestamp};

pub mod auto_detect;
pub mod encap_gre;
pub mod five_tuple;
pub mod flow_label;
pub mod parse;
pub mod tagged;

pub use auto_detect::{AutoDetectEncap, AutoEncapVariants};
pub use encap_gre::InnerGre;
pub use five_tuple::{FiveTuple, FiveTupleKey, SockAddr};
pub use flow_label::{FlowLabel, FlowLabelKey};
pub use tagged::{Tagged, TaggedKey, Tagger};

verus! {

/// One captured frame and when it was captured.
#[derive(Debug, Clone, Copy)]
pub struct PacketView<'a> {
    pub frame: &'a [u8],
    pub timestamp: Timestamp,
}

impl<'a> PacketView<'a> {
    /// A view of `frame`, captured at `timestamp`.
    pub fn new(frame: &'a [u8], timestamp: Timestamp) -> (v: Self)
        ensures
            v.frame@ == frame@,
            v.timestamp == timestamp,
    {
        PacketView { frame, timestamp }
    }
}

/// The TCP header flags, one bit each.
#[derive(Debug, Clone, Copy, PartialEq, Eq, Structural, Hash)]
pub struct TcpFlags(pub u8);

impl TcpFlags {
    /// The FIN flag alone.
    pub fn fin() -> (f: TcpFlags)
        ensures
            f.0 == 0x01,
    {
        TcpFlags(0x01)
    }

    /// The SYN flag alone.
    pub fn syn() -> (f: TcpFlags)
        ensures
            f.0 == 0x02,
    {
        TcpFlags(0x02)
    }

    /// The RST flag alone.
    pub fn rst() -> (f: TcpFlags)
        ensures
            f.0 == 0x04,
    {
        TcpFlags(0x04)
    }

    /// The PSH flag alone.
    pub fn psh() -> (f: TcpFlags)
        ensures
            f.0 == 0x08,
    {
        TcpFlags(0x08)
    }

    /// The ACK flag alone.
    pub fn ack() -> (f: TcpFlags)
        ensures
            f.0 == 0x10,
    {
        TcpFlags(0x10)
    }

    /// The URG flag alone.
    pub fn urg() -> (f: TcpFlags)
        ensures
            f.0 == 0x20,
    {
        TcpFlags(0x20)
    }

    /// The ECE flag alone.
    pub fn ece() -> (f: TcpFlags)
        ensures
            f.0 == 0x40,
    {
        TcpFlags(0x40)
    }

    /// The CWR flag alone.
    pub fn cwr() -> (f: TcpFlags)
        ensures
            f.0 == 0x80,
    {
        TcpFlags(0x80)
    }

    /// Every flag of `other` is set.
    pub fn contains(&self, other: TcpFlags) -> (r: bool)
        ensures
            r == (self.0 & other.0 == other.0),
    {
        self.0 & other.0 == other.0
    }
}

/// What a TCP segment carries besides its ports.
#[derive(Debug, Clone, Copy, PartialEq, Eq, Structural)]
pub struct TcpInfo {
    pub flags: TcpFlags,
    pub seq: u32,
    pub ack: u32,
    /// Bytes of payload after the TCP header.
    pub payload_len: usize,
    pub window: u16,
}

/// A packet's flow key, the way it travels in the flow, its transport
/// protocol and, for TCP, its segment fields.
#[derive(Debug, Clone, Copy)]
pub struct Extracted<K> {
    pub key: K,
    pub orientation: Orientation,
    pub l4: Option<L4Proto>,
    pub tcp: Option<TcpInfo>,
}

/// Keys packets into flows.
pub trait FlowExtractor {
    type Key;

    /// Whether `r` is what this extractor gives for `frame`.
    spec fn extracts(&self, frame: Seq<u8>, r: Option<Extracted<Self::Key>>) -> bool;

    /// The flow of one packet, or `None` when the packet has none.
    fn extract(&self, view: PacketView) -> (r: Option<Extracted<Self::Key>>)
        ensures
            self.extracts(view.frame@, r),
    ;
}

} // verus!
