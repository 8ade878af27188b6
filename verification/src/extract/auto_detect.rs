//! [`AutoDetectEncap`]: try the plain frame first, then the frame
//! inside its tunnel; the first that keys wins.

use vstd::prelude::*;

use super::encap_gre::{gre_extract, gre_inner_frame};
use super::{Extracted, FlowExtractor, PacketView};

verus! {

/// Which encapsulations [`AutoDetectEncap`] tries after the plain frame.
/// VLAN tags need no stripping: the plain parse already reads past them.
/// Of the tunnels, GRE is decapsulated; the other flags are kept for
/// callers that select them, and try nothing more.
#[derive(Debug, Clone, Copy, PartialEq, Eq, Structural)]
pub struct AutoEncapVariants {
    pub vlan: bool,
    pub mpls: bool,
    pub vxlan: bool,
    pub gtp_u: bool,
    pub gre: bool,
}

impl AutoEncapVariants {
    /// Every variant.
    pub fn all() -> (v: Self)
        ensures
            v.vlan && v.mpls && v.vxlan && v.gtp_u && v.gre,
    {
        AutoEncapVariants { vlan: true, mpls: true, vxlan: true, gtp_u: true, gre: true }
    }

    /// No variant: only the plain frame.
    pub fn none() -> (v: Self)
        ensures
            !v.vlan && !v.mpls && !v.vxlan && !v.gtp_u && !v.gre,
    {
        AutoEncapVariants { vlan: false, mpls: false, vxlan: false, gtp_u: false, gre: false }
    }
}

impl Default for AutoEncapVariants {
    fn default() -> (v: Self)
        ensures
            v.vlan && v.mpls && v.vxlan && v.gtp_u && v.gre,
    {
        AutoEncapVariants::all()
    }
}

/// Run `extractor` on the plain frame, then, when GRE is enabled, on the
/// frame inside a GRE tunnel. Only the `gre` flag changes what is
/// extracted: VLAN-tagged frames are keyed by the plain parse either
/// way, and no MPLS, VXLAN or GTP-U decapsulation is done, so the
/// `vlan`, `mpls`, `vxlan` and `gtp_u` flags select nothing.
#[derive(Debug, Clone, Copy)]
pub struct AutoDetectEncap<E> {
    pub extractor: E,
    pub variants: AutoEncapVariants,
}

impl<E> AutoDetectEncap<E> {
    /// Every variant enabled.
    pub fn new(extractor: E) -> (a: Self)
        ensures
            a.extractor == extractor,
            a.variants == (AutoEncapVariants { vlan: true, mpls: true, vxlan: true, gtp_u: true, gre: true }),
    {
        AutoDetectEncap { extractor, variants: AutoEncapVariants::all() }
    }

    /// The given variants.
    pub fn with_variants(extractor: E, variants: AutoEncapVariants) -> (a: Self)
        ensures
            a.extractor == extractor,
            a.variants == variants,
    {
        AutoDetectEncap { extractor, variants }
    }
}

impl<E: FlowExtractor> FlowExtractor for AutoDetectEncap<E> {
    type Key = E::Key;

    /// The plain frame's extraction when it keys; else, with GRE
    /// enabled, the extraction of the frame inside the tunnel. The other
    /// variant flags play no part.
    open spec fn extracts(&self, frame: Seq<u8>, r: Option<Extracted<E::Key>>) -> bool {
        exists|x: Option<Extracted<E::Key>>|
            #[trigger] self.extractor.extracts(frame, x) && if x is Some {
                r == x
            } else if self.variants.gre {
                match gre_inner_frame(frame) {
                    None => r is None,
                    Some(inner) => self.extractor.extracts(inner, r),
                }
            } else {
                r is None
            }
    }

    fn extract(&self, view: PacketView) -> (r: Option<Extracted<E::Key>>) {
        let x = self.extractor.extract(view);
        assert(self.extractor.extracts(view.frame@, x));
        if x.is_some() {
            return x;
        }
        if self.variants.gre {
            return gre_extract(&self.extractor, view);
        }
        None
    }
}

/// The auto-detecting extractor with the given variants.
pub open spec fn detector<E>(e: E, v: AutoEncapVariants) -> AutoDetectEncap<E> {
    AutoDetectEncap { extractor: e, variants: v }
}

/// What the auto-detecting extractor gives depends on the `gre` flag
/// alone: two variant sets that agree on it extract alike.
pub proof fn lemma_only_gre_matters<E: FlowExtractor>(e: E, a: AutoEncapVariants, b: AutoEncapVariants, frame: Seq<u8>, r: Option<Extracted<E::Key>>)
    requires
        a.gre == b.gre,
    ensures
        detector(e, a).extracts(frame, r) == detector(e, b).extracts(frame, r),
{
    let da = detector(e, a);
    let db = detector(e, b);
    assert(da.extractor == db.extractor && da.variants.gre == db.variants.gre);
    if da.extracts(frame, r) {
        let x = choose|x: Option<Extracted<E::Key>>| #[trigger] da.extractor.extracts(frame, x) && if x is Some {
            r == x
        } else if da.variants.gre {
            match gre_inner_frame(frame) {
                None => r is None,
                Some(inner) => da.extractor.extracts(inner, r),
            }
        } else {
            r is None
        };
        assert(db.extractor.extracts(frame, x));
    }
    if db.extracts(frame, r) {
        let x = choose|x: Option<Extracted<E::Key>>| #[trigger] db.extractor.extracts(frame, x) && if x is Some {
            r == x
        } else if db.variants.gre {
            match gre_inner_frame(frame) {
                None => r is None,
                Some(inner) => db.extractor.extracts(inner, r),
            }
        } else {
            r is None
        };
        assert(da.extractor.extracts(frame, x));
    }
}

} // verus!
