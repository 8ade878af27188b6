//! ICMPv4 and ICMPv6 messages: types, codes and classifications.

pub mod datagram;
pub mod parser;
pub mod types;

pub use datagram::{detect_family, IcmpParser};
pub use parser::{parse_v4, parse_v6, IcmpParseError};

pub use types::{
    DestUnreachableKind, IcmpFamily, IcmpInner, IcmpMessage, IcmpType, Icmpv4DestUnreachCode,
    Icmpv4RedirectCode, Icmpv4TimeExceededCode, Icmpv4Type, Icmpv6DestUnreachCode,
    Icmpv6ParamProblemCode, Icmpv6TimeExceededCode, Icmpv6Type, MtuSignalKind,
};

use vstd::prelude::*;

verus! {

/// Stable identifier of the ICMP parser.
pub const PARSER_KIND: &'static str = "icmp";

} // verus!
