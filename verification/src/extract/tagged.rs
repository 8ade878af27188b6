//! [`Tagged`]: prefix a flow key with a caller's tag, such as the
//! capture interface, so that the same connection seen on two sources
//! is two flows. Without the wrapper the sources merge.

use vstd::prelude::*;

use super::{Extracted, FlowExtractor, PacketView};

verus! {

/// Produces a packet's tag; implemented by the caller.
pub trait Tagger {
    type Tag;

    /// The tag of one packet.
    fn tag(&self, view: PacketView) -> Self::Tag;
}

/// An inner key with a tag in front.
#[derive(Debug, Clone, Copy, PartialEq, Eq, Hash)]
pub struct TaggedKey<T, K> {
    pub tag: T,
    pub inner: K,
}

/// Prefix `extractor`'s key with the tag `tagger` gives each packet.
#[derive(Debug, Clone, Copy)]
pub struct Tagged<E, T> {
    pub extractor: E,
    pub tagger: T,
}

impl<E, T> Tagged<E, T> {
    /// Wrap `extractor` with `tagger`.
    pub fn new(extractor: E, tagger: T) -> (t: Self)
        ensures
            t.extractor == extractor,
            t.tagger == tagger,
    {
        Tagged { extractor, tagger }
    }
}

/// `r` is `x` with some tag in front of its key.
pub open spec fn tagged_from<T, K>(x: Option<Extracted<K>>, r: Option<Extracted<TaggedKey<T, K>>>) -> bool {
    match x {
        None => r is None,
        Some(e) => r matches Some(y) && y.key.inner == e.key && y.orientation == e.orientation && y.l4
            == e.l4 && y.tcp == e.tcp,
    }
}

impl<E: FlowExtractor, T: Tagger> FlowExtractor for Tagged<E, T> {
    type Key = TaggedKey<T::Tag, E::Key>;

    /// The tag is the tagger's, whose contract is the caller's.
    open spec fn extracts(&self, frame: Seq<u8>, r: Option<Extracted<TaggedKey<T::Tag, E::Key>>>) -> bool {
        exists|x: Option<Extracted<E::Key>>| #[trigger] self.extractor.extracts(frame, x) && tagged_from(x, r)
    }

    /// The tagger is asked only for a packet the inner extractor keys,
    /// and the key's tag is what it answered for this packet.
    fn extract(&self, view: PacketView) -> (r: Option<Extracted<TaggedKey<T::Tag, E::Key>>>)
        ensures
            r matches Some(y) ==> call_ensures(T::tag, (&self.tagger, view), y.key.tag),
    {
        let x = self.extractor.extract(view);
        let r = match x {
            None => None,
            Some(e) => {
                let tag = self.tagger.tag(view);
                Some(Extracted { key: TaggedKey { tag, inner: e.key }, orientation: e.orientation, l4: e.l4, tcp: e.tcp })
            },
        };
        assert(self.extractor.extracts(view.frame@, x));
        r
    }
}

} // verus!
