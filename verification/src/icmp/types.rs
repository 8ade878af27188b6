//! Parsed ICMPv4 and ICMPv6 messages and their classifications.

use vstd::prelude::*;

use crate::event::L4Proto;
use crate::net::IpAddr;

verus! {

/// The IP version an ICMP message travelled over.
#[derive(Debug, Clone, Copy, PartialEq, Eq, Structural, Hash)]
pub enum IcmpFamily {
    V4,
    V6,
}

/// One parsed ICMP message.
#[derive(Debug, Clone)]
pub struct IcmpMessage {
    pub family: IcmpFamily,
    pub ty: IcmpType,
}

/// The ICMP type, split by IP version: the type numbers do not align.
#[derive(Debug, Clone)]
pub enum IcmpType {
    V4(Icmpv4Type),
    V6(Icmpv6Type),
}

/// A parsed ICMPv4 type; rarely seen types are kept raw in `Other`.
#[derive(Debug, Clone)]
pub enum Icmpv4Type {
    /// Type 0.
    EchoReply { id: u16, seq: u16 },
    /// Type 3, with the embedded original packet when it parsed.
    DestinationUnreachable { code: Icmpv4DestUnreachCode, inner: Option<IcmpInner> },
    /// Type 5.
    Redirect { code: Icmpv4RedirectCode, gateway: u32, inner: Option<IcmpInner> },
    /// Type 8.
    EchoRequest { id: u16, seq: u16 },
    /// Type 11.
    TimeExceeded { code: Icmpv4TimeExceededCode, inner: Option<IcmpInner> },
    /// Type 12.
    ParameterProblem { pointer: u8, inner: Option<IcmpInner> },
    /// Type 13.
    Timestamp { id: u16, seq: u16, originate: u32, receive: u32, transmit: u32 },
    /// Type 14.
    TimestampReply { id: u16, seq: u16, originate: u32, receive: u32, transmit: u32 },
    /// Any other type: the type and code bytes and the rest of the
    /// message.
    Other { raw_type: u8, raw_code: u8, raw_body: Vec<u8> },
}

/// ICMPv4 Destination Unreachable codes.
#[derive(Debug, Clone, Copy, PartialEq, Eq, Structural)]
pub enum Icmpv4DestUnreachCode {
    Net,
    Host,
    Protocol,
    Port,
    FragmentationNeeded { mtu: Option<u16> },
    SourceRouteFailed,
    DestNetworkUnknown,
    DestHostUnknown,
    SourceHostIsolated,
    NetworkProhibited,
    HostProhibited,
    NetworkTos,
    HostTos,
    CommunicationProhibited,
    HostPrecedenceViolation,
    PrecedenceCutoffInEffect,
    Other(u8),
}

/// ICMPv4 Redirect codes.
#[derive(Debug, Clone, Copy, PartialEq, Eq, Structural)]
pub enum Icmpv4RedirectCode {
    Network,
    Host,
    Tos,
    TosHost,
    Other(u8),
}

/// ICMPv4 Time Exceeded codes.
#[derive(Debug, Clone, Copy, PartialEq, Eq, Structural)]
pub enum Icmpv4TimeExceededCode {
    HopLimitExceeded,
    FragmentReassemblyTimeExceeded,
    Other(u8),
}

/// A parsed ICMPv6 type; rarely seen types are kept raw in `Other`.
#[derive(Debug, Clone)]
pub enum Icmpv6Type {
    /// Type 1.
    DestinationUnreachable { code: Icmpv6DestUnreachCode, inner: Option<IcmpInner> },
    /// Type 2.
    PacketTooBig { mtu: u32, inner: Option<IcmpInner> },
    /// Type 3.
    TimeExceeded { code: Icmpv6TimeExceededCode, inner: Option<IcmpInner> },
    /// Type 4.
    ParameterProblem { code: Icmpv6ParamProblemCode, pointer: u32, inner: Option<IcmpInner> },
    /// Type 128.
    EchoRequest { id: u16, seq: u16 },
    /// Type 129.
    EchoReply { id: u16, seq: u16 },
    /// Type 135: Neighbor Solicitation.
    NeighborSolicitation { target: u128 },
    /// Type 136: Neighbor Advertisement, with its flag bits.
    NeighborAdvertisement { target: u128, router: bool, solicited: bool, override_: bool },
    /// Any other type: the type and code bytes and the rest of the
    /// message.
    Other { raw_type: u8, raw_code: u8, raw_body: Vec<u8> },
}

/// ICMPv6 Destination Unreachable codes.
#[derive(Debug, Clone, Copy, PartialEq, Eq, Structural)]
pub enum Icmpv6DestUnreachCode {
    NoRoute,
    AdminProhibited,
    BeyondScopeOfSource,
    AddressUnreachable,
    PortUnreachable,
    SourceAddressFailedIngressPolicy,
    RejectRouteToDestination,
    Other(u8),
}

/// ICMPv6 Time Exceeded codes.
#[derive(Debug, Clone, Copy, PartialEq, Eq, Structural)]
pub enum Icmpv6TimeExceededCode {
    HopLimitExceeded,
    FragmentReassemblyTimeExceeded,
    Other(u8),
}

/// ICMPv6 Parameter Problem codes.
#[derive(Debug, Clone, Copy, PartialEq, Eq, Structural)]
pub enum Icmpv6ParamProblemCode {
    ErroneousHeaderField,
    UnrecognizedNextHeaderType,
    UnrecognizedIpv6Option,
    Other(u8),
}

/// The flow an ICMP error refers to, read from the original packet it
/// embeds; ports for TCP and UDP only.
#[derive(Debug, Clone, Copy, PartialEq, Eq, Structural)]
pub struct IcmpInner {
    pub src: IpAddr,
    pub dst: IpAddr,
    pub proto: L4Proto,
    pub src_port: Option<u16>,
    pub dst_port: Option<u16>,
}

impl IcmpMessage {
    /// A message of the given family and type.
    pub fn new(family: IcmpFamily, ty: IcmpType) -> (m: Self)
        ensures
            m.family == family,
            m.ty == ty,
    {
        IcmpMessage { family, ty }
    }
}

impl IcmpInner {
    /// The embedded flow's addresses, protocol and ports.
    pub fn new(src: IpAddr, dst: IpAddr, proto: L4Proto, src_port: Option<u16>, dst_port: Option<u16>) -> (i: Self)
        ensures
            i == (IcmpInner { src, dst, proto, src_port, dst_port }),
    {
        IcmpInner { src, dst, proto, src_port, dst_port }
    }
}

/// The error types: those that embed the packet they answer.
pub open spec fn is_error_type(t: IcmpType) -> bool {
    match t {
        IcmpType::V4(v) => v is DestinationUnreachable || v is Redirect || v is TimeExceeded
            || v is ParameterProblem,
        IcmpType::V6(v) => v is DestinationUnreachable || v is PacketTooBig || v is TimeExceeded
            || v is ParameterProblem,
    }
}

/// The embedded packet of an error type, if present, with the error's
/// slug.
pub open spec fn error_inner_spec(t: IcmpType) -> Option<(Seq<char>, IcmpInner)> {
    let (label, inner): (Seq<char>, Option<IcmpInner>) = match t {
        IcmpType::V4(Icmpv4Type::DestinationUnreachable { inner, .. }) => ("dest_unreachable"@, inner),
        IcmpType::V4(Icmpv4Type::Redirect { inner, .. }) => ("redirect"@, inner),
        IcmpType::V4(Icmpv4Type::TimeExceeded { inner, .. }) => ("time_exceeded"@, inner),
        IcmpType::V4(Icmpv4Type::ParameterProblem { inner, .. }) => ("parameter_problem"@, inner),
        IcmpType::V6(Icmpv6Type::DestinationUnreachable { inner, .. }) => ("dest_unreachable"@, inner),
        IcmpType::V6(Icmpv6Type::PacketTooBig { inner, .. }) => ("packet_too_big"@, inner),
        IcmpType::V6(Icmpv6Type::TimeExceeded { inner, .. }) => ("time_exceeded"@, inner),
        IcmpType::V6(Icmpv6Type::ParameterProblem { inner, .. }) => ("parameter_problem"@, inner),
        _ => (Seq::empty(), None),
    };
    match inner {
        Some(i) => Some((label, i)),
        None => None,
    }
}

/// The stable slug of each type; v4 and v6 types of the same meaning
/// share one.
pub open spec fn icmp_slug(t: IcmpType) -> Seq<char> {
    match t {
        IcmpType::V4(v) => match v {
            Icmpv4Type::EchoReply { .. } => "echo_reply"@,
            Icmpv4Type::DestinationUnreachable { .. } => "dest_unreachable"@,
            Icmpv4Type::Redirect { .. } => "redirect"@,
            Icmpv4Type::EchoRequest { .. } => "echo_request"@,
            Icmpv4Type::TimeExceeded { .. } => "time_exceeded"@,
            Icmpv4Type::ParameterProblem { .. } => "parameter_problem"@,
            Icmpv4Type::Timestamp { .. } => "timestamp"@,
            Icmpv4Type::TimestampReply { .. } => "timestamp_reply"@,
            Icmpv4Type::Other { .. } => "other"@,
        },
        IcmpType::V6(v) => match v {
            Icmpv6Type::DestinationUnreachable { .. } => "dest_unreachable"@,
            Icmpv6Type::PacketTooBig { .. } => "packet_too_big"@,
            Icmpv6Type::TimeExceeded { .. } => "time_exceeded"@,
            Icmpv6Type::ParameterProblem { .. } => "parameter_problem"@,
            Icmpv6Type::EchoRequest { .. } => "echo_request"@,
            Icmpv6Type::EchoReply { .. } => "echo_reply"@,
            Icmpv6Type::NeighborSolicitation { .. } => "neighbor_solicitation"@,
            Icmpv6Type::NeighborAdvertisement { .. } => "neighbor_advertisement"@,
            Icmpv6Type::Other { .. } => "other"@,
        },
    }
}

/// The unified v4/v6 classes of Destination Unreachable codes.
#[derive(Debug, Clone, Copy, PartialEq, Eq, Structural, Hash)]
pub enum DestUnreachableKind {
    /// v4 `Host`, `DestHostUnknown`, `SourceHostIsolated`; v6
    /// `AddressUnreachable`.
    Host,
    /// v4 `Port`; v6 `PortUnreachable`.
    Port,
    /// v4 `Net`, `DestNetworkUnknown`; v6 `NoRoute`.
    Network,
    /// v4 `Protocol`.
    Protocol,
    /// v4 `NetworkProhibited`, `HostProhibited`,
    /// `CommunicationProhibited`, `PrecedenceCutoffInEffect`; v6
    /// `AdminProhibited`, `RejectRouteToDestination`,
    /// `SourceAddressFailedIngressPolicy`.
    AdministrativelyProhibited,
    /// v4 `FragmentationNeeded`.
    FragmentationNeeded,
    /// Every other code.
    Other,
}

/// The class of a v4 Destination Unreachable code.
pub open spec fn v4_unreach_kind(c: Icmpv4DestUnreachCode) -> DestUnreachableKind {
    match c {
        Icmpv4DestUnreachCode::Host | Icmpv4DestUnreachCode::DestHostUnknown
        | Icmpv4DestUnreachCode::SourceHostIsolated => DestUnreachableKind::Host,
        Icmpv4DestUnreachCode::Port => DestUnreachableKind::Port,
        Icmpv4DestUnreachCode::Net | Icmpv4DestUnreachCode::DestNetworkUnknown => DestUnreachableKind::Network,
        Icmpv4DestUnreachCode::Protocol => DestUnreachableKind::Protocol,
        Icmpv4DestUnreachCode::NetworkProhibited | Icmpv4DestUnreachCode::HostProhibited
        | Icmpv4DestUnreachCode::CommunicationProhibited
        | Icmpv4DestUnreachCode::PrecedenceCutoffInEffect => DestUnreachableKind::AdministrativelyProhibited,
        Icmpv4DestUnreachCode::FragmentationNeeded { .. } => DestUnreachableKind::FragmentationNeeded,
        _ => DestUnreachableKind::Other,
    }
}

/// The class of a v6 Destination Unreachable code.
pub open spec fn v6_unreach_kind(c: Icmpv6DestUnreachCode) -> DestUnreachableKind {
    match c {
        Icmpv6DestUnreachCode::AddressUnreachable => DestUnreachableKind::Host,
        Icmpv6DestUnreachCode::PortUnreachable => DestUnreachableKind::Port,
        Icmpv6DestUnreachCode::NoRoute => DestUnreachableKind::Network,
        Icmpv6DestUnreachCode::AdminProhibited | Icmpv6DestUnreachCode::RejectRouteToDestination
        | Icmpv6DestUnreachCode::SourceAddressFailedIngressPolicy => DestUnreachableKind::AdministrativelyProhibited,
        _ => DestUnreachableKind::Other,
    }
}

/// The class of a Destination Unreachable message; `None` for every
/// other type.
pub open spec fn unreach_kind(t: IcmpType) -> Option<DestUnreachableKind> {
    match t {
        IcmpType::V4(Icmpv4Type::DestinationUnreachable { code, .. }) => Some(v4_unreach_kind(code)),
        IcmpType::V6(Icmpv6Type::DestinationUnreachable { code, .. }) => Some(v6_unreach_kind(code)),
        _ => None,
    }
}

/// The stable slug of each class.
pub open spec fn unreach_slug(k: DestUnreachableKind) -> Seq<char> {
    match k {
        DestUnreachableKind::Host => "host_unreachable"@,
        DestUnreachableKind::Port => "port_unreachable"@,
        DestUnreachableKind::Network => "network_unreachable"@,
        DestUnreachableKind::Protocol => "protocol_unreachable"@,
        DestUnreachableKind::AdministrativelyProhibited => "administratively_prohibited"@,
        DestUnreachableKind::FragmentationNeeded => "fragmentation_needed"@,
        DestUnreachableKind::Other => "dest_unreachable_other"@,
    }
}

impl DestUnreachableKind {
    /// Stable slug, suitable as a metric label.
    pub fn as_str(&self) -> (s: &'static str)
        ensures
            s@ == unreach_slug(*self),
    {
        match self {
            DestUnreachableKind::Host => "host_unreachable",
            DestUnreachableKind::Port => "port_unreachable",
            DestUnreachableKind::Network => "network_unreachable",
            DestUnreachableKind::Protocol => "protocol_unreachable",
            DestUnreachableKind::AdministrativelyProhibited => "administratively_prohibited",
            DestUnreachableKind::FragmentationNeeded => "fragmentation_needed",
            DestUnreachableKind::Other => "dest_unreachable_other",
        }
    }
}

/// A path-MTU signal: v4 Fragmentation Needed or v6 Packet Too Big.
#[derive(Debug, Clone, Copy, PartialEq, Eq, Structural, Hash)]
pub enum MtuSignalKind {
    /// ICMPv4 Destination Unreachable code 4; older senders omit the
    /// next-hop MTU.
    FragmentationNeeded { next_hop_mtu: Option<u16> },
    /// ICMPv6 type 2; the MTU is always there.
    PacketTooBig { next_hop_mtu: u32 },
}

/// The MTU signal a message carries.
pub open spec fn mtu_signal_of(t: IcmpType) -> Option<MtuSignalKind> {
    match t {
        IcmpType::V4(
            Icmpv4Type::DestinationUnreachable {
                code: Icmpv4DestUnreachCode::FragmentationNeeded { mtu },
                ..
            },
        ) => Some(MtuSignalKind::FragmentationNeeded { next_hop_mtu: mtu }),
        IcmpType::V6(Icmpv6Type::PacketTooBig { mtu, .. }) => Some(
            MtuSignalKind::PacketTooBig { next_hop_mtu: mtu },
        ),
        _ => None,
    }
}

impl MtuSignalKind {
    /// Stable slug, suitable as a metric label.
    pub fn as_str(&self) -> (s: &'static str)
        ensures
            s@ == (match self {
                MtuSignalKind::FragmentationNeeded { .. } => "fragmentation_needed"@,
                MtuSignalKind::PacketTooBig { .. } => "packet_too_big"@,
            }),
    {
        match self {
            MtuSignalKind::FragmentationNeeded { .. } => "fragmentation_needed",
            MtuSignalKind::PacketTooBig { .. } => "packet_too_big",
        }
    }

    /// The next-hop MTU, for both families; `None` when a v4 sender
    /// omitted it.
    pub fn next_hop_mtu(&self) -> (r: Option<u32>)
        ensures
            r == (match self {
                MtuSignalKind::FragmentationNeeded { next_hop_mtu } => match next_hop_mtu {
                    Some(m) => Some(m as u32),
                    None => None,
                },
                MtuSignalKind::PacketTooBig { next_hop_mtu } => Some(*next_hop_mtu),
            }),
    {
        match self {
            MtuSignalKind::FragmentationNeeded { next_hop_mtu } => match next_hop_mtu {
                Some(m) => Some(*m as u32),
                None => None,
            },
            MtuSignalKind::PacketTooBig { next_hop_mtu } => Some(*next_hop_mtu),
        }
    }
}

impl IcmpType {
    /// `true` for the error types, which embed the packet they answer.
    pub fn is_error(&self) -> (r: bool)
        ensures
            r == is_error_type(*self),
    {
        match self {
            IcmpType::V4(v) => match v {
                Icmpv4Type::DestinationUnreachable { .. } | Icmpv4Type::Redirect { .. }
                | Icmpv4Type::TimeExceeded { .. } | Icmpv4Type::ParameterProblem { .. } => true,
                _ => false,
            },
            IcmpType::V6(v) => match v {
                Icmpv6Type::DestinationUnreachable { .. } | Icmpv6Type::PacketTooBig { .. }
                | Icmpv6Type::TimeExceeded { .. } | Icmpv6Type::ParameterProblem { .. } => true,
                _ => false,
            },
        }
    }

    /// The slug and embedded packet of an error type whose embed parsed.
    pub fn error_inner(&self) -> (r: Option<(&'static str, &IcmpInner)>)
        ensures
            r matches Some((l, i)) ==> error_inner_spec(*self) == Some((l@, *i)),
            r is None ==> error_inner_spec(*self) is None,
    {
        let (label, inner): (&'static str, &Option<IcmpInner>) = match self {
            IcmpType::V4(Icmpv4Type::DestinationUnreachable { inner, .. }) => ("dest_unreachable", inner),
            IcmpType::V4(Icmpv4Type::Redirect { inner, .. }) => ("redirect", inner),
            IcmpType::V4(Icmpv4Type::TimeExceeded { inner, .. }) => ("time_exceeded", inner),
            IcmpType::V4(Icmpv4Type::ParameterProblem { inner, .. }) => ("parameter_problem", inner),
            IcmpType::V6(Icmpv6Type::DestinationUnreachable { inner, .. }) => ("dest_unreachable", inner),
            IcmpType::V6(Icmpv6Type::PacketTooBig { inner, .. }) => ("packet_too_big", inner),
            IcmpType::V6(Icmpv6Type::TimeExceeded { inner, .. }) => ("time_exceeded", inner),
            IcmpType::V6(Icmpv6Type::ParameterProblem { inner, .. }) => ("parameter_problem", inner),
            _ => {
                return None;
            },
        };
        match inner {
            Some(i) => Some((label, i)),
            None => None,
        }
    }

    /// Stable slug of the type, suitable as a metric label.
    pub fn short_kind(&self) -> (s: &'static str)
        ensures
            s@ == icmp_slug(*self),
    {
        match self {
            IcmpType::V4(v) => match v {
                Icmpv4Type::EchoReply { .. } => "echo_reply",
                Icmpv4Type::DestinationUnreachable { .. } => "dest_unreachable",
                Icmpv4Type::Redirect { .. } => "redirect",
                Icmpv4Type::EchoRequest { .. } => "echo_request",
                Icmpv4Type::TimeExceeded { .. } => "time_exceeded",
                Icmpv4Type::ParameterProblem { .. } => "parameter_problem",
                Icmpv4Type::Timestamp { .. } => "timestamp",
                Icmpv4Type::TimestampReply { .. } => "timestamp_reply",
                Icmpv4Type::Other { .. } => "other",
            },
            IcmpType::V6(v) => match v {
                Icmpv6Type::DestinationUnreachable { .. } => "dest_unreachable",
                Icmpv6Type::PacketTooBig { .. } => "packet_too_big",
                Icmpv6Type::TimeExceeded { .. } => "time_exceeded",
                Icmpv6Type::ParameterProblem { .. } => "parameter_problem",
                Icmpv6Type::EchoRequest { .. } => "echo_request",
                Icmpv6Type::EchoReply { .. } => "echo_reply",
                Icmpv6Type::NeighborSolicitation { .. } => "neighbor_solicitation",
                Icmpv6Type::NeighborAdvertisement { .. } => "neighbor_advertisement",
                Icmpv6Type::Other { .. } => "other",
            },
        }
    }

    /// The unified class of a Destination Unreachable message; `None`
    /// for every other type.
    pub fn dest_unreachable_kind(&self) -> (r: Option<DestUnreachableKind>)
        ensures
            r == unreach_kind(*self),
    {
        match self {
            IcmpType::V4(Icmpv4Type::DestinationUnreachable { code, .. }) => Some(
                match code {
                    Icmpv4DestUnreachCode::Host | Icmpv4DestUnreachCode::DestHostUnknown
                    | Icmpv4DestUnreachCode::SourceHostIsolated => DestUnreachableKind::Host,
                    Icmpv4DestUnreachCode::Port => DestUnreachableKind::Port,
                    Icmpv4DestUnreachCode::Net | Icmpv4DestUnreachCode::DestNetworkUnknown => {
                        DestUnreachableKind::Network
                    },
                    Icmpv4DestUnreachCode::Protocol => DestUnreachableKind::Protocol,
                    Icmpv4DestUnreachCode::NetworkProhibited | Icmpv4DestUnreachCode::HostProhibited
                    | Icmpv4DestUnreachCode::CommunicationProhibited
                    | Icmpv4DestUnreachCode::PrecedenceCutoffInEffect => {
                        DestUnreachableKind::AdministrativelyProhibited
                    },
                    Icmpv4DestUnreachCode::FragmentationNeeded { .. } => {
                        DestUnreachableKind::FragmentationNeeded
                    },
                    _ => DestUnreachableKind::Other,
                },
            ),
            IcmpType::V6(Icmpv6Type::DestinationUnreachable { code, .. }) => Some(
                match code {
                    Icmpv6DestUnreachCode::AddressUnreachable => DestUnreachableKind::Host,
                    Icmpv6DestUnreachCode::PortUnreachable => DestUnreachableKind::Port,
                    Icmpv6DestUnreachCode::NoRoute => DestUnreachableKind::Network,
                    Icmpv6DestUnreachCode::AdminProhibited
                    | Icmpv6DestUnreachCode::RejectRouteToDestination
                    | Icmpv6DestUnreachCode::SourceAddressFailedIngressPolicy => {
                        DestUnreachableKind::AdministrativelyProhibited
                    },
                    _ => DestUnreachableKind::Other,
                },
            ),
            _ => None,
        }
    }

    /// The path-MTU signal: v4 Fragmentation Needed and v6 Packet Too
    /// Big; `None` for every other type.
    pub fn mtu_signal(&self) -> (r: Option<MtuSignalKind>)
        ensures
            r == mtu_signal_of(*self),
    {
        match self {
            IcmpType::V4(
                Icmpv4Type::DestinationUnreachable {
                    code: Icmpv4DestUnreachCode::FragmentationNeeded { mtu },
                    ..
                },
            ) => Some(MtuSignalKind::FragmentationNeeded { next_hop_mtu: *mtu }),
            IcmpType::V6(Icmpv6Type::PacketTooBig { mtu, .. }) => Some(
                MtuSignalKind::PacketTooBig { next_hop_mtu: *mtu },
            ),
            _ => None,
        }
    }
}

impl IcmpMessage {
    /// Whether the message is an error; see [`IcmpType::is_error`].
    pub fn is_error(&self) -> (r: bool)
        ensures
            r == is_error_type(self.ty),
    {
        self.ty.is_error()
    }

    /// See [`IcmpType::error_inner`].
    pub fn error_inner(&self) -> (r: Option<(&'static str, &IcmpInner)>)
        ensures
            r matches Some((l, i)) ==> error_inner_spec(self.ty) == Some((l@, *i)),
            r is None ==> error_inner_spec(self.ty) is None,
    {
        self.ty.error_inner()
    }

    /// See [`IcmpType::short_kind`].
    pub fn short_kind(&self) -> (s: &'static str)
        ensures
            s@ == icmp_slug(self.ty),
    {
        self.ty.short_kind()
    }

    /// See [`IcmpType::dest_unreachable_kind`].
    pub fn dest_unreachable_kind(&self) -> (r: Option<DestUnreachableKind>)
        ensures
            r == unreach_kind(self.ty),
    {
        self.ty.dest_unreachable_kind()
    }

    /// See [`IcmpType::mtu_signal`].
    pub fn mtu_signal(&self) -> (r: Option<MtuSignalKind>)
        ensures
            r == mtu_signal_of(self.ty),
    {
        self.ty.mtu_signal()
    }
}

/// The classes of the Destination Unreachable codes: for ICMPv4 (RFC 792
/// and RFC 1812) host codes 1, 7 and 8, port 3, network 0 and 6, protocol
/// 2, administrative prohibition 9, 10, 13 and 15, fragmentation needed 4,
/// and the type-of-service and source-route codes 5, 11, 12 and 14 as
/// other; for ICMPv6 (RFC 4443) address unreachable 3 as host, port 4,
/// no route 0 as network, prohibition 1, 5 and 6, and beyond scope 2 as
/// other.
pub proof fn lemma_unreach_classes(mtu: Option<u16>, c: u8)
    ensures
        v4_unreach_kind(Icmpv4DestUnreachCode::Net) == DestUnreachableKind::Network,
        v4_unreach_kind(Icmpv4DestUnreachCode::Host) == DestUnreachableKind::Host,
        v4_unreach_kind(Icmpv4DestUnreachCode::Protocol) == DestUnreachableKind::Protocol,
        v4_unreach_kind(Icmpv4DestUnreachCode::Port) == DestUnreachableKind::Port,
        v4_unreach_kind(Icmpv4DestUnreachCode::FragmentationNeeded { mtu })
            == DestUnreachableKind::FragmentationNeeded,
        v4_unreach_kind(Icmpv4DestUnreachCode::SourceRouteFailed) == DestUnreachableKind::Other,
        v4_unreach_kind(Icmpv4DestUnreachCode::DestNetworkUnknown) == DestUnreachableKind::Network,
        v4_unreach_kind(Icmpv4DestUnreachCode::DestHostUnknown) == DestUnreachableKind::Host,
        v4_unreach_kind(Icmpv4DestUnreachCode::SourceHostIsolated) == DestUnreachableKind::Host,
        v4_unreach_kind(Icmpv4DestUnreachCode::NetworkProhibited)
            == DestUnreachableKind::AdministrativelyProhibited,
        v4_unreach_kind(Icmpv4DestUnreachCode::HostProhibited)
            == DestUnreachableKind::AdministrativelyProhibited,
        v4_unreach_kind(Icmpv4DestUnreachCode::NetworkTos) == DestUnreachableKind::Other,
        v4_unreach_kind(Icmpv4DestUnreachCode::HostTos) == DestUnreachableKind::Other,
        v4_unreach_kind(Icmpv4DestUnreachCode::CommunicationProhibited)
            == DestUnreachableKind::AdministrativelyProhibited,
        v4_unreach_kind(Icmpv4DestUnreachCode::HostPrecedenceViolation)
            == DestUnreachableKind::Other,
        v4_unreach_kind(Icmpv4DestUnreachCode::PrecedenceCutoffInEffect)
            == DestUnreachableKind::AdministrativelyProhibited,
        v4_unreach_kind(Icmpv4DestUnreachCode::Other(c)) == DestUnreachableKind::Other,
        v6_unreach_kind(Icmpv6DestUnreachCode::NoRoute) == DestUnreachableKind::Network,
        v6_unreach_kind(Icmpv6DestUnreachCode::AdminProhibited)
            == DestUnreachableKind::AdministrativelyProhibited,
        v6_unreach_kind(Icmpv6DestUnreachCode::BeyondScopeOfSource) == DestUnreachableKind::Other,
        v6_unreach_kind(Icmpv6DestUnreachCode::AddressUnreachable) == DestUnreachableKind::Host,
        v6_unreach_kind(Icmpv6DestUnreachCode::PortUnreachable) == DestUnreachableKind::Port,
        v6_unreach_kind(Icmpv6DestUnreachCode::SourceAddressFailedIngressPolicy)
            == DestUnreachableKind::AdministrativelyProhibited,
        v6_unreach_kind(Icmpv6DestUnreachCode::RejectRouteToDestination)
            == DestUnreachableKind::AdministrativelyProhibited,
        v6_unreach_kind(Icmpv6DestUnreachCode::Other(c)) == DestUnreachableKind::Other,
{
}

} // verus!
