//! Which ICMP family a datagram is read as.
//!
//! ICMPv4 and ICMPv6 share the low type numbers, so the type byte alone
//! cannot tell them apart: type 128 and above is ICMPv6; types 1 to 4
//! are errors in both families and quote the offending IP header at
//! offset 8, whose version nibble decides; every other type is ICMPv4.
//! A parser restricted to one family skips datagrams of the other.

use vstd::prelude::*;

use super::parser::{etherparse_icmpv4, etherparse_icmpv6, parse_v4, parse_v6, v4_message, v6_message};
use super::types::{IcmpFamily, IcmpMessage};
use crate::event::{FlowSide, Timestamp};

verus! {

/// The family a datagram is detected as; `None` only for an empty one.
pub open spec fn detected_family(payload: Seq<u8>) -> Option<IcmpFamily> {
    if payload.len() == 0 {
        None
    } else if payload[0] >= 128 {
        Some(IcmpFamily::V6)
    } else if 1 <= payload[0] <= 4 && payload.len() > 8 {
        if payload[8] / 16 == 6 {
            Some(IcmpFamily::V6)
        } else {
            Some(IcmpFamily::V4)
        }
    } else {
        Some(IcmpFamily::V4)
    }
}

/// Detect the ICMP family of a datagram from its content, as
/// [`detected_family`] says.
pub fn detect_family(payload: &[u8]) -> (r: Option<IcmpFamily>)
    ensures
        r == detected_family(payload@),
{
    if payload.len() == 0 {
        return None;
    }
    let ty = payload[0];
    if ty >= 128 {
        return Some(IcmpFamily::V6);
    }
    if 1 <= ty && ty <= 4 && payload.len() > 8 {
        let inner0 = payload[8];
        assert(inner0 >> 4u8 == inner0 / 16) by (bit_vector);
        return Some(if inner0 >> 4 == 6 {
            IcmpFamily::V6
        } else {
            IcmpFamily::V4
        });
    }
    Some(IcmpFamily::V4)
}

/// A stateless reader of ICMPv4 and ICMPv6 datagrams, optionally
/// restricted to one family.
#[derive(Debug, Clone, Copy)]
pub struct IcmpParser {
    only: Option<IcmpFamily>,
}

impl IcmpParser {
    /// The family this parser is restricted to, if any.
    pub closed spec fn restriction(&self) -> Option<IcmpFamily> {
        self.only
    }

    /// The family a datagram is read as by this parser: the detected
    /// one, unless the parser is restricted to the other.
    pub open spec fn selected(&self, payload: Seq<u8>) -> Option<IcmpFamily> {
        match detected_family(payload) {
            None => None,
            Some(f) => match self.restriction() {
                Some(want) => if want == f {
                    Some(f)
                } else {
                    None
                },
                None => Some(f),
            },
        }
    }

    /// A parser of both families.
    pub fn new() -> (p: Self)
        ensures
            p.restriction() == None::<IcmpFamily>,
    {
        IcmpParser { only: None }
    }

    /// Restrict the parser to ICMPv4: datagrams detected as ICMPv6 are
    /// skipped.
    pub fn v4_only(self) -> (p: Self)
        ensures
            p.restriction() == Some(IcmpFamily::V4),
    {
        IcmpParser { only: Some(IcmpFamily::V4) }
    }

    /// Restrict the parser to ICMPv6: datagrams detected as ICMPv4 are
    /// skipped.
    pub fn v6_only(self) -> (p: Self)
        ensures
            p.restriction() == Some(IcmpFamily::V6),
    {
        IcmpParser { only: Some(IcmpFamily::V6) }
    }

    /// The family to decode a datagram as, or `None` where it is empty
    /// or belongs to a family the parser skips.
    pub fn select_family(&self, payload: &[u8]) -> (r: Option<IcmpFamily>)
        ensures
            r == self.selected(payload@),
    {
        match detect_family(payload) {
            None => None,
            Some(f) => match self.only {
                Some(want) => if want == f {
                    Some(f)
                } else {
                    None
                },
                None => Some(f),
            },
        }
    }
}

impl IcmpParser {
    /// Whether the datagram yields a message: its family is selected and
    /// etherparse accepts it as that family.
    pub open spec fn yields(&self, payload: Seq<u8>) -> bool {
        match self.selected(payload) {
            Some(IcmpFamily::V4) => etherparse_icmpv4(payload) is Some,
            Some(IcmpFamily::V6) => etherparse_icmpv6(payload) is Some,
            None => false,
        }
    }

    /// Read one datagram: where it yields a message, append it to `out`
    /// (read as its selected family); otherwise leave `out` as it was.
    /// The side and time do not matter to ICMP.
    pub fn parse(&mut self, payload: &[u8], _side: FlowSide, _ts: Timestamp, out: &mut Vec<IcmpMessage>)
        ensures
            *final(self) == *old(self),
            !old(self).yields(payload@) ==> final(out)@ == old(out)@,
            old(self).yields(payload@) ==> {
                &&& final(out)@.len() == old(out)@.len() + 1
                &&& final(out)@.drop_last() == old(out)@
                &&& match old(self).selected(payload@) {
                    Some(IcmpFamily::V4) => v4_message(payload@, final(out)@.last()),
                    _ => v6_message(payload@, final(out)@.last()),
                }
            },
    {
        let family = match self.select_family(payload) {
            Some(f) => f,
            None => {
                return;
            },
        };
        let parsed = match family {
            IcmpFamily::V4 => parse_v4(payload),
            IcmpFamily::V6 => parse_v6(payload),
        };
        match parsed {
            Ok(m) => {
                out.push(m);
                assert(out@.drop_last() =~= old(out)@);
            },
            Err(_) => {},
        }
    }
}

impl Default for IcmpParser {
    fn default() -> (p: Self)
        ensures
            p.restriction() == None::<IcmpFamily>,
    {
        IcmpParser::new()
    }
}

/// A parser restricted to one family never selects the other, and an
/// unrestricted parser selects exactly what detection finds.
pub proof fn lemma_restriction_respected(p: IcmpParser, payload: Seq<u8>)
    ensures
        p.restriction() is Some ==> (p.selected(payload) is Some ==> p.selected(payload)
            == p.restriction()),
        p.restriction() is None ==> p.selected(payload) == detected_family(payload),
        p.selected(payload) is Some ==> p.selected(payload) == detected_family(payload),
{
}

} // verus!
