//! The Wayland side in plain values: offers and the data-control protocols.

use vstd::prelude::*;

use crate::text;

verus! {

/// The MIME types of an offer: they accumulate between the offer's
/// introduction and the selection event that activates it.
pub struct OfferMimes(Vec<String>);

impl View for OfferMimes {
    type V = Seq<Seq<char>>;

    closed spec fn view(&self) -> Seq<Seq<char>> {
        text::texts(self.0@)
    }
}

impl Default for OfferMimes {
    fn default() -> (r: Self)
        ensures
            r@ == Seq::<Seq<char>>::empty(),
    {
        let r = OfferMimes(Vec::new());
        assert(r@ =~= Seq::empty());
        r
    }
}

impl OfferMimes {
    /// One more type.
    pub fn push(&mut self, mime: String)
        ensures
            final(self)@ == old(self)@.push(mime@),
    {
        broadcast use text::texts_push;

        self.0.push(mime);
    }

    /// The types so far, in order.
    pub fn snapshot(&self) -> (r: Vec<String>)
        ensures
            text::texts(r@) == self@,
    {
        text::copied(self.0.as_slice())
    }
}

/// An offer: the object that stands for it, and its MIME types.
#[derive(Debug)]
pub struct Offer {
    pub id: u64,
    pub mime_types: Vec<String>,
}

/// The offer, with its types as texts.
#[verifier::ext_equal]
pub struct OfferView {
    pub id: u64,
    pub types: Seq<Seq<char>>,
}

impl View for Offer {
    type V = OfferView;

    open spec fn view(&self) -> OfferView {
        OfferView { id: self.id, types: text::texts(self.mime_types@) }
    }
}

/// An offer that may be absent.
pub open spec fn seen(offer: Option<Offer>) -> Option<OfferView> {
    match offer {
        Some(o) => Some(o@),
        None => None,
    }
}

/// The data-control protocols.
#[derive(Debug, Clone, Copy, PartialEq, Eq, Structural)]
pub enum Protocol {
    Ext,
    Wlr,
}

impl Protocol {
    /// The name of the protocol.
    pub fn protocol_name(self) -> (r: &'static str)
        ensures
            r@ == (match self {
                Protocol::Ext => "ext-data-control-v1"@,
                Protocol::Wlr => "zwlr-data-control-v1"@,
            }),
    {
        match self {
            Protocol::Ext => "ext-data-control-v1",
            Protocol::Wlr => "zwlr-data-control-v1",
        }
    }
}

/// The protocol to use among those that could be bound: the standard one
/// where it is there.
pub fn preferred_protocol(ext: bool, wlr: bool) -> (r: Option<Protocol>)
    ensures
        r == (if ext {
            Some(Protocol::Ext)
        } else if wlr {
            Some(Protocol::Wlr)
        } else {
            None
        }),
{
    if ext {
        Some(Protocol::Ext)
    } else if wlr {
        Some(Protocol::Wlr)
    } else {
        None
    }
}

/// An offer is seen with its number and its types, each in its place.
pub proof fn offers_are_seen_as_they_are(offer: Offer, i: int)
    requires
        0 <= i < offer.mime_types@.len(),
    ensures
        seen(None) is None,
        seen(Some(offer)) == Some(offer@),
        offer@.id == offer.id,
        offer@.types.len() == offer.mime_types@.len(),
        offer@.types[i] == offer.mime_types@[i]@,
{
}

/// The standard protocol is taken where the compositor has it, and else the
/// older one where it has that.
pub proof fn the_standard_protocol_comes_first(
    wlr: bool,
    both: Option<Protocol>,
    older: Option<Protocol>,
    none: Option<Protocol>,
)
    requires
        call_ensures(preferred_protocol, (true, wlr), both),
        call_ensures(preferred_protocol, (false, true), older),
        call_ensures(preferred_protocol, (false, false), none),
    ensures
        both == Some(Protocol::Ext),
        older == Some(Protocol::Wlr),
        none is None,
{
}

/// The types of an offer are gathered in the order in which they come, and
/// handed out as they are.
pub proof fn offered_types_are_gathered_in_order(
    made: OfferMimes,
    mimes: &mut OfferMimes,
    mime: String,
    other: OfferMimes,
    listed: Vec<String>,
    i: int,
)
    requires
        call_ensures(<OfferMimes as Default>::default, (), made),
        call_ensures(OfferMimes::push, (mimes, mime), ()),
        call_ensures(OfferMimes::snapshot, (&other,), listed),
    ensures
        made@.len() == 0,
        final(mimes)@ == old(mimes)@.push(mime@),
        listed@.len() == other@.len(),
        0 <= i < listed@.len() ==> listed@[i]@ == other@[i],
{
    let list = text::texts(listed@);
    assert(list.len() == listed@.len());
    if 0 <= i < listed@.len() {
        assert(list[i] == listed@[i]@);
    }
}

/// Each protocol goes by its own name.
pub proof fn protocols_have_names(ext: &'static str, wlr: &'static str)
    requires
        call_ensures(Protocol::protocol_name, (Protocol::Ext,), ext),
        call_ensures(Protocol::protocol_name, (Protocol::Wlr,), wlr),
    ensures
        ext@ == "ext-data-control-v1"@,
        wlr@ == "zwlr-data-control-v1"@,
{
}

} // verus!
