//! Moving payloads: conversions, transforms, and the protocol steps of a
//! transfer in either direction.

use vstd::prelude::*;

use crate::mime;
use crate::mime::Transform;
use crate::payload;
use crate::payload::{ReadOutcome, RopeReader, SecretBytes};
use crate::text;
use crate::x11;
use crate::x11::{PropertyNotify, SelectionNotify, SelectionRequest};
use crate::SelKind;

verus! {

/// The text that Latin-1 bytes stand for: each byte is a code point.
pub open spec fn latin1_text(data: Seq<u8>) -> Seq<char> {
    data.map_values(|b: u8| b as char)
}

/// The Latin-1 byte of a character; `?` for one that has none.
pub open spec fn latin1_byte(c: char) -> u8 {
    if c as u32 <= 0xff {
        c as u8
    } else {
        0x3f
    }
}

/// The Latin-1 form of a text.
pub open spec fn latin1_bytes(text: Seq<char>) -> Seq<u8> {
    text.map_values(|c: char| latin1_byte(c))
}

/// `std::str::from_utf8`: the text that the bytes encode, where they are
/// valid UTF-8.
#[verifier::external_body]
fn utf8_text(data: &[u8]) -> (r: Option<&str>)
    ensures
        r is Some == vstd::utf8::valid_utf8(data@),
        r matches Some(text) ==> vstd::utf8::encode_utf8(text@) == data@,
{
    std::str::from_utf8(data).ok()
}

/// Encoding one text behind another is encoding each.
proof fn encode_splits(a: Seq<char>, b: Seq<char>)
    ensures
        vstd::utf8::encode_utf8(a + b) == vstd::utf8::encode_utf8(a) + vstd::utf8::encode_utf8(b),
    decreases a.len(),
{
    if a.len() == 0 {
        assert(a + b =~= b);
        assert(vstd::utf8::encode_utf8(a) + vstd::utf8::encode_utf8(b)
            =~= vstd::utf8::encode_utf8(b));
    } else {
        assert((a + b).drop_first() =~= a.drop_first() + b);
        assert((a + b)[0] == a[0]);
        encode_splits(a.drop_first(), b);
        assert(vstd::utf8::encode_utf8(a + b) =~= vstd::utf8::encode_utf8(a)
            + vstd::utf8::encode_utf8(b));
    }
}

/// How a character of Latin-1 is encoded.
proof fn encode_latin1(b: u8)
    ensures
        vstd::utf8::encode_utf8(seq![b as char]) == (if b < 0x80 {
            seq![b]
        } else {
            seq![0xc0u8 | (b >> 6), 0x80u8 | (b & 0x3f)]
        }),
{
    let c = b as char;
    let s = seq![c];
    assert(s.drop_first() =~= seq![]);
    assert(vstd::utf8::encode_utf8(s.drop_first()) =~= seq![]);
    assert(vstd::utf8::encode_utf8(s) =~= vstd::utf8::encode_scalar(c as u32));
    let n = c as u32;
    assert(n == b as u32);
    assert(n == b as u32 && b < 0x80 ==> (n & 0x7f) as u8 == b) by (bit_vector);
    assert(n == b as u32 ==> 0xc0u8 | ((n >> 6) & 0x1f) as u8 == 0xc0u8 | (b >> 6)) by (bit_vector);
    assert(n == b as u32 ==> 0x80u8 | (n & 0x3f) as u8 == 0x80u8 | (b & 0x3f)) by (bit_vector);
}

/// Latin-1 to UTF-8. Stateless, so a payload may be converted chunk by chunk.
/// Room for the largest output is asked for at the start.
pub fn latin1_to_utf8(data: &[u8]) -> (r: SecretBytes)
    ensures
        r@ == vstd::utf8::encode_utf8(latin1_text(data@)),
{
    let capacity: usize = if data.len() <= usize::MAX / 2 {
        data.len() * 2
    } else {
        usize::MAX
    };
    let mut out = SecretBytes::with_capacity(capacity);
    let ghost all = latin1_text(data@);
    assert(vstd::utf8::encode_utf8(all.take(0)) =~= seq![]);
    for i in 0..data.len()
        invariant
            all == latin1_text(data@),
            out@ == vstd::utf8::encode_utf8(all.take(i as int)),
    {
        let b = data[i];
        proof {
            encode_latin1(b);
            encode_splits(all.take(i as int), seq![b as char]);
            assert(all.take(i + 1) =~= all.take(i as int) + seq![b as char]);
        }
        if b < 0x80 {
            out.push(b);
            assert(out@ =~= vstd::utf8::encode_utf8(all.take(i + 1)));
        } else {
            out.push(0xc0 | (b >> 6));
            out.push(0x80 | (b & 0x3f));
            assert(out@ =~= vstd::utf8::encode_utf8(all.take(i + 1)));
        }
    }
    assert(all.take(all.len() as int) =~= all);
    out
}

fn to_latin1(c: char) -> (r: u8)
    ensures
        r == latin1_byte(c),
{
    let n: u32 = c as u32;
    if n <= 0xff {
        n as u8
    } else {
        0x3f
    }
}

/// UTF-8 to Latin-1, with `?` for what Latin-1 cannot say. Nothing where the
/// input is not UTF-8 at all. Latin-1 is never longer than UTF-8, so room for
/// as many bytes as came in is asked for at the start.
pub fn utf8_to_latin1(data: &[u8]) -> (r: Option<SecretBytes>)
    ensures
        r is Some == vstd::utf8::valid_utf8(data@),
        r matches Some(out) ==> out@ == latin1_bytes(vstd::utf8::decode_utf8(data@)),
{
    let text = match utf8_text(data) {
        Some(text) => text,
        None => {
            return None;
        },
    };
    proof {
        vstd::utf8::encode_utf8_decode_utf8(text@);
    }
    let mut out = SecretBytes::with_capacity(data.len());
    assert(latin1_bytes(text@.take(0)) =~= seq![]);
    for c in chars: text.chars()
        invariant
            chars.seq() == text@,
            out@ == latin1_bytes(text@.take(chars.index() as int)),
    {
        out.push(to_latin1(c));
        proof {
            let i = chars.index() as int;
            assert(text@.take(i + 1) =~= text@.take(i).push(c));
            assert(latin1_bytes(text@.take(i + 1)) =~= latin1_bytes(text@.take(i)).push(
                latin1_byte(c),
            ));
        }
    }
    assert(text@.take(text@.len() as int) =~= text@);
    Some(out)
}

/// Converting two chunks one by one is converting them at once.
pub proof fn latin1_is_chunk_safe(a: Seq<u8>, b: Seq<u8>)
    ensures
        vstd::utf8::encode_utf8(latin1_text(a + b)) == vstd::utf8::encode_utf8(latin1_text(a))
            + vstd::utf8::encode_utf8(latin1_text(b)),
{
    assert(latin1_text(a + b) =~= latin1_text(a) + latin1_text(b));
    encode_splits(latin1_text(a), latin1_text(b));
}

/// Latin-1 that is converted to UTF-8 and back is unchanged.
pub proof fn latin1_round_trips(data: Seq<u8>)
    ensures
        vstd::utf8::valid_utf8(vstd::utf8::encode_utf8(latin1_text(data))),
        latin1_bytes(
            vstd::utf8::decode_utf8(vstd::utf8::encode_utf8(latin1_text(data))),
        ) == data,
{
    vstd::utf8::encode_utf8_valid_utf8(latin1_text(data));
    vstd::utf8::encode_utf8_decode_utf8(latin1_text(data));
    assert(latin1_bytes(latin1_text(data)) =~= data);
}

/// Converting to Latin-1 and back loses only what Latin-1 cannot say: a text
/// of its characters comes back as it was.
pub proof fn latin1_keeps_its_characters(text: Seq<char>)
    requires
        forall|i: int| 0 <= i < text.len() ==> #[trigger] text[i] as u32 <= 0xff,
    ensures
        latin1_text(latin1_bytes(text)) == text,
{
    assert forall|i: int| 0 <= i < text.len() implies #[trigger] latin1_text(latin1_bytes(text))[i]
        == text[i] by {
        latin1_keeps_character(text[i]);
    }
    assert(latin1_text(latin1_bytes(text)) =~= text);
}

proof fn latin1_keeps_character(c: char)
    requires
        c as u32 <= 0xff,
    ensures
        latin1_byte(c) as char == c,
{
}

/// The answer to a request: the property that holds the content, or a
/// refusal.
pub open spec fn answer(req: SelectionRequest, property: Option<u32>) -> SelectionNotify {
    SelectionNotify {
        time: req.time,
        requestor: req.requestor,
        selection: req.selection,
        target: req.target,
        property: match property {
            Some(p) => p,
            None => x11::NONE,
        },
    }
}

/// Answers a request, positively or, without a property, as a refusal.
pub fn notify(req: &SelectionRequest, property: Option<u32>) -> (r: SelectionNotify)
    ensures
        r == answer(*req, property),
{
    SelectionNotify {
        time: req.time,
        requestor: req.requestor,
        selection: req.selection,
        target: req.target,
        property: match property {
            Some(p) => p,
            None => x11::NONE,
        },
    }
}

/// What happens to the bytes of a paste.
#[derive(Debug, Clone, Copy, PartialEq, Eq, Structural)]
pub enum Conv {
    /// Nothing.
    Verbatim,
    /// The requestor asked for legacy `STRING`.
    Utf8ToLatin1,
}

/// Everything that answering a paste takes.
#[derive(Debug)]
pub struct PasteReply {
    pub kind: SelKind,
    pub mime: String,
    pub req: SelectionRequest,
    pub property: u32,
    pub reply_type: u32,
    pub conversion: Conv,
    pub transform: Transform,
    /// Seconds without progress before the transfer is given up.
    pub timeout: Option<u64>,
}

/// One buffer behind another, allocated at its full size.
fn concat(a: &[u8], b: &[u8]) -> (r: SecretBytes)
    ensures
        r@ == a@ + b@,
{
    let capacity: usize = if a.len() <= usize::MAX - b.len() {
        a.len() + b.len()
    } else {
        usize::MAX
    };
    let mut out = SecretBytes::with_capacity(capacity);
    out.extend(a);
    out.extend(b);
    assert(out@ =~= a@ + b@);
    out
}

fn starts_with(data: &[u8], prefix: &[u8]) -> (r: bool)
    ensures
        r == prefix@.is_prefix_of(data@),
{
    if data.len() < prefix.len() {
        return false;
    }
    for i in 0..prefix.len()
        invariant
            prefix.len() <= data.len(),
            forall|j: int| 0 <= j < i ==> data@[j] == prefix@[j],
    {
        if data[i] != prefix[i] {
            assert(data@[i as int] != prefix@[i as int]);
            return false;
        }
    }
    assert(prefix@ =~= data@.take(prefix@.len() as int));
    true
}

/// Applies a transform to a whole payload.
pub fn apply_transform(transform: Transform, data: &[u8]) -> (r: SecretBytes)
    ensures
        r@ == mime::transformed(transform, data@),
{
    let copy: [u8; 5] = [0x63, 0x6f, 0x70, 0x79, 0x0a];
    let cut: [u8; 4] = [0x63, 0x75, 0x74, 0x0a];
    let empty: [u8; 0] = [];
    assert(copy@ =~= mime::copy_header());
    assert(cut@ =~= mime::cut_header());
    let r = match transform {
        Transform::Identity => concat(&empty, data),
        Transform::StripCopyHeader => {
            if starts_with(data, &copy) {
                concat(&empty, vstd::slice::slice_subrange(data, 5, data.len()))
            } else if starts_with(data, &cut) {
                concat(&empty, vstd::slice::slice_subrange(data, 4, data.len()))
            } else {
                concat(&empty, data)
            }
        },
        Transform::PrependCopyHeader => concat(&copy, data),
    };
    assert(r@ =~= mime::transformed(transform, data@));
    r
}

/// With five bytes at hand a transform is decided: what follows passes as it
/// is. Prepending and passing through are decided from the start.
pub proof fn transforms_touch_only_the_head(transform: Transform, head: Seq<u8>, rest: Seq<u8>)
    requires
        head.len() >= 5 || !(transform is StripCopyHeader),
    ensures
        mime::transformed(transform, head + rest) == mime::transformed(transform, head) + rest,
{
    let whole = head + rest;
    match transform {
        Transform::Identity => {},
        Transform::PrependCopyHeader => {
            assert(mime::copy_header() + whole =~= mime::copy_header() + head + rest);
        },
        Transform::StripCopyHeader => {
            assert(whole.take(5) =~= head.take(5));
            assert(whole.take(4) =~= head.take(4));
            assert(mime::copy_header().is_prefix_of(whole) == mime::copy_header().is_prefix_of(
                head,
            )) by {
                if mime::copy_header().is_prefix_of(whole) {
                    assert(mime::copy_header() =~= head.take(5));
                }
                if mime::copy_header().is_prefix_of(head) {
                    assert(mime::copy_header() =~= whole.take(5));
                }
            }
            assert(mime::cut_header().is_prefix_of(whole) == mime::cut_header().is_prefix_of(head))
                by {
                if mime::cut_header().is_prefix_of(whole) {
                    assert(mime::cut_header() =~= head.take(4));
                }
                if mime::cut_header().is_prefix_of(head) {
                    assert(mime::cut_header() =~= whole.take(4));
                }
            }
            assert(whole.skip(5) =~= head.skip(5) + rest);
            assert(whole.skip(4) =~= head.skip(4) + rest);
        },
    }
}

/// Applies a transform to a payload that comes in pieces.
pub struct HeadTransform {
    transform: Transform,
    head: SecretBytes,
    decided: bool,
    taken: Ghost<Seq<u8>>,
    given: Ghost<Seq<u8>>,
}

impl HeadTransform {
    /// The transform.
    pub closed spec fn rule(&self) -> Transform {
        self.transform
    }

    /// All that went in.
    pub closed spec fn taken(&self) -> Seq<u8> {
        self.taken@
    }

    /// All that came out.
    pub closed spec fn given(&self) -> Seq<u8> {
        self.given@
    }

    /// What is held back until the transform is decided.
    pub closed spec fn held(&self) -> Seq<u8> {
        self.head@
    }

    /// What came out is what the transform makes of what went in, or nothing
    /// while it is undecided.
    pub closed spec fn wf(&self) -> bool {
        if self.decided {
            &&& self.given@ == mime::transformed(self.transform, self.taken@)
            &&& self.taken@.len() >= 5 || !(self.transform is StripCopyHeader)
            &&& self.head@.len() == 0
        } else {
            &&& self.head@ == self.taken@
            &&& self.given@.len() == 0
            &&& self.head@.len() < 5
            &&& self.transform is StripCopyHeader || self.head@.len() == 0
        }
    }

    /// Starts on a payload.
    pub fn new(transform: Transform) -> (r: Self)
        ensures
            r.wf(),
            r.rule() == transform,
            r.taken() == Seq::<u8>::empty(),
            r.given() == Seq::<u8>::empty(),
            r.held() == Seq::<u8>::empty(),
    {
        HeadTransform {
            transform,
            head: SecretBytes::with_capacity(0),
            decided: false,
            taken: Ghost(Seq::empty()),
            given: Ghost(Seq::empty()),
        }
    }

    /// Takes the next piece and gives what it leads to. Fewer bytes than the
    /// longest action line has are held back.
    pub fn push(&mut self, piece: SecretBytes) -> (r: SecretBytes)
        requires
            old(self).wf(),
        ensures
            final(self).wf(),
            final(self).rule() == old(self).rule(),
            final(self).taken() == old(self).taken() + piece@,
            final(self).given() == old(self).given() + r@,
            final(self).taken().len() <= final(self).given().len() + 5,
            final(self).held().len() < 5,
            r@.len() + final(self).held().len() <= piece@.len() + 5,
    {
        let ghost taken = self.taken@;
        let ghost given = self.given@;
        if self.decided {
            proof {
                transforms_touch_only_the_head(self.transform, taken, piece@);
            }
            self.taken = Ghost(taken + piece@);
            self.given = Ghost(given + piece@);
            return piece;
        }
        let head = concat(self.head.as_slice(), piece.as_slice());
        self.taken = Ghost(taken + piece@);
        if self.transform == Transform::StripCopyHeader && head.len() < 5 {
            self.head = head;
            let nothing = SecretBytes::with_capacity(0);
            assert(given + nothing@ =~= given);
            return nothing;
        }
        let out = apply_transform(self.transform, head.as_slice());
        self.head = SecretBytes::with_capacity(0);
        self.decided = true;
        self.given = Ghost(given + out@);
        assert(self.given@ =~= out@);
        out
    }

    /// The payload ended: gives what was held back.
    pub fn finish(self) -> (r: SecretBytes)
        requires
            self.wf(),
        ensures
            self.given() + r@ == mime::transformed(self.rule(), self.taken()),
            r@.len() <= 5,
    {
        if self.decided {
            let nothing = SecretBytes::with_capacity(0);
            assert(self.given@ + nothing@ =~= self.given@);
            nothing
        } else {
            let out = apply_transform(self.transform, self.head.as_slice());
            assert(self.given@ + out@ =~= out@);
            out
        }
    }
}

/// How much of a source to gather before it is served. What is converted must
/// be whole, since it is refused unless all of it is text; the rest is
/// gathered up to what fits one property and streamed from there.
pub fn read_cap(conversion: Conv, max_payload: usize) -> (r: Option<usize>)
    ensures
        r == (match conversion {
            Conv::Verbatim => Some(max_payload),
            Conv::Utf8ToLatin1 => None,
        }),
{
    match conversion {
        Conv::Verbatim => Some(max_payload),
        Conv::Utf8ToLatin1 => None,
    }
}

/// Why a paste is refused.
#[derive(Debug, Clone, Copy, PartialEq, Eq, Structural)]
pub enum Refusal {
    /// The source gave nothing: it is gone. An empty answer would be cached as
    /// the content; a refusal lets the requestor try again.
    EmptySource,
    /// The source is not UTF-8, so it has no Latin-1 form.
    NotText,
}

/// How a paste is served.
pub enum Serve {
    Refuse(Refusal),
    /// Write the property at once.
    Property(SecretBytes),
    /// Send it in increments: these bytes first, and then, where there is a
    /// transform, what it makes of the rest of the source.
    Stream { first: SecretBytes, rest: Option<HeadTransform> },
}

/// The bytes that a whole source is served as, if it can be.
pub open spec fn served(
    conversion: Conv,
    transform: Transform,
    source: Seq<u8>,
) -> Result<Seq<u8>, Refusal> {
    if source.len() == 0 {
        Err(Refusal::EmptySource)
    } else {
        match conversion {
            Conv::Verbatim => Ok(mime::transformed(transform, source)),
            Conv::Utf8ToLatin1 => {
                let text = mime::transformed(transform, source);
                if vstd::utf8::valid_utf8(text) {
                    Ok(latin1_bytes(vstd::utf8::decode_utf8(text)))
                } else {
                    Err(Refusal::NotText)
                }
            },
        }
    }
}

/// Decides how to serve what was gathered of a source.
pub fn serve(reply: &PasteReply, outcome: ReadOutcome, max_payload: usize) -> (r: Serve)
    requires
        outcome is Overflow ==> reply.conversion is Verbatim,
    ensures
        match outcome@ {
            payload::OutcomeView::Complete(source) => match served(
                reply.conversion,
                reply.transform,
                source,
            ) {
                Err(reason) => r == Serve::Refuse(reason),
                Ok(bytes) => if bytes.len() <= max_payload {
                    r matches Serve::Property(data) && data@ == bytes
                } else {
                    r matches Serve::Stream { first, rest } && first@ == bytes && rest is None
                },
            },
            payload::OutcomeView::Overflow(source) => {
                &&& r matches Serve::Stream { first, rest }
                &&& rest matches Some(head)
                &&& head.wf()
                &&& head.rule() == reply.transform
                &&& head.taken() == source
                &&& head.given() == first@
                &&& first@.len() + head.held().len() <= source.len() + 5
            },
        },
{
    match outcome {
        ReadOutcome::Overflow(rope) => {
            let mut head = HeadTransform::new(reply.transform);
            let source = rope.to_contiguous();
            let ghost bytes = source@;
            let first = head.push(source);
            assert(head.taken() =~= bytes);
            assert(head.given() =~= first@);
            Serve::Stream { first, rest: Some(head) }
        },
        ReadOutcome::Complete(rope) => {
            if rope.is_empty() {
                return Serve::Refuse(Refusal::EmptySource);
            }
            let source = rope.to_contiguous();
            let data = apply_transform(reply.transform, source.as_slice());
            let bytes = match reply.conversion {
                Conv::Verbatim => data,
                Conv::Utf8ToLatin1 => match utf8_to_latin1(data.as_slice()) {
                    Some(converted) => converted,
                    None => {
                        return Serve::Refuse(Refusal::NotText);
                    },
                },
            };
            if bytes.len() <= max_payload {
                Serve::Property(bytes)
            } else {
                Serve::Stream { first: bytes, rest: None }
            }
        },
    }
}

/// A source that goes away before it gave a byte is refused, never served as
/// an empty payload.
pub proof fn empty_source_is_refused(conversion: Conv, transform: Transform)
    ensures
        served(conversion, transform, Seq::<u8>::empty()) is Err,
{
}

/// What to do next about a paste that is sent in increments.
pub enum IncrStep {
    /// Wait until the requestor deletes the property.
    AwaitDelete,
    /// Hand in more of the source.
    NeedData,
    /// Write these bytes to the property.
    Write(SecretBytes),
    /// Write nothing to the property: the payload is complete.
    Close,
    /// Nothing is left to do.
    Done,
}

/// Sends a payload to an X11 requestor in increments. The announcement and
/// every increment wait for the requestor to delete the property; an empty
/// increment ends the payload.
pub struct IncrSender {
    requestor: u32,
    property: u32,
    limit: usize,
    piece: SecretBytes,
    at: usize,
    ended: bool,
    awaiting: bool,
    started: bool,
    closed: bool,
    taken: Ghost<Seq<u8>>,
    sent: Ghost<Seq<u8>>,
}

impl IncrSender {
    /// All that was handed in.
    pub closed spec fn taken(&self) -> Seq<u8> {
        self.taken@
    }

    /// All that was written.
    pub closed spec fn sent(&self) -> Seq<u8> {
        self.sent@
    }

    /// What is held in memory: the piece that was handed in last.
    pub closed spec fn held(&self) -> Seq<u8> {
        self.piece@
    }

    /// The source ended.
    pub closed spec fn is_ended(&self) -> bool {
        self.ended
    }

    /// The requestor still has to take what was written last.
    pub closed spec fn is_awaiting(&self) -> bool {
        self.awaiting
    }

    /// The payload was closed.
    pub closed spec fn is_closed(&self) -> bool {
        self.closed
    }

    /// The most that one increment holds.
    pub closed spec fn increment(&self) -> usize {
        self.limit
    }

    /// The property that the increments go through.
    pub closed spec fn channel(&self) -> (u32, u32) {
        (self.requestor, self.property)
    }

    /// The two that stay as they are.
    pub open spec fn same_channel(&self, other: &Self) -> bool {
        self.channel() == other.channel() && self.increment() == other.increment()
    }

    /// What was written and what is still held make up what was handed in.
    pub closed spec fn wf(&self) -> bool {
        &&& self.limit > 0
        &&& self.at <= self.piece@.len()
        &&& self.taken@ == self.sent@ + self.piece@.skip(self.at as int)
        &&& self.started == (self.sent@.len() > 0)
        &&& self.closed ==> self.ended && self.taken@ == self.sent@
    }

    /// Starts on a payload whose announcement was just written.
    pub fn new(requestor: u32, property: u32, limit: usize) -> (r: Self)
        requires
            limit > 0,
        ensures
            r.wf(),
            r.taken() == Seq::<u8>::empty(),
            r.sent() == Seq::<u8>::empty(),
            r.held() == Seq::<u8>::empty(),
            !r.is_ended() && !r.is_closed() && r.is_awaiting(),
            r.increment() == limit,
            r.channel() == (requestor, property),
    {
        IncrSender {
            requestor,
            property,
            limit,
            piece: SecretBytes::with_capacity(0),
            at: 0,
            ended: false,
            awaiting: true,
            started: false,
            closed: false,
            taken: Ghost(Seq::empty()),
            sent: Ghost(Seq::empty()),
        }
    }

    /// Hands in the next piece of the source, once all before it was written.
    pub fn offer(&mut self, piece: SecretBytes)
        requires
            old(self).wf(),
            !old(self).is_ended(),
            old(self).taken() == old(self).sent(),
        ensures
            final(self).wf(),
            final(self).same_channel(old(self)),
            final(self).taken() == old(self).taken() + piece@,
            final(self).sent() == old(self).sent(),
            final(self).held() == piece@,
            final(self).is_ended() == old(self).is_ended(),
            final(self).is_awaiting() == old(self).is_awaiting(),
            final(self).is_closed() == old(self).is_closed(),
    {
        self.taken = Ghost(self.taken@ + piece@);
        assert(piece@.skip(0) =~= piece@);
        self.piece = piece;
        self.at = 0;
    }

    /// The source ended.
    pub fn end(&mut self)
        requires
            old(self).wf(),
        ensures
            final(self).wf(),
            final(self).same_channel(old(self)),
            final(self).taken() == old(self).taken(),
            final(self).sent() == old(self).sent(),
            final(self).held() == old(self).held(),
            final(self).is_ended(),
            final(self).is_awaiting() == old(self).is_awaiting(),
            final(self).is_closed() == old(self).is_closed(),
    {
        self.ended = true;
    }

    /// A property changed: true when it is the requestor that took the last
    /// increment.
    pub fn deleted(&mut self, event: &PropertyNotify) -> (r: bool)
        requires
            old(self).wf(),
        ensures
            final(self).wf(),
            final(self).same_channel(old(self)),
            r == ((event.window, event.atom) == old(self).channel() && event.deleted),
            final(self).is_awaiting() == (old(self).is_awaiting() && !r),
            final(self).taken() == old(self).taken(),
            final(self).held() == old(self).held(),
            final(self).sent() == old(self).sent(),
            final(self).is_ended() == old(self).is_ended(),
            final(self).is_closed() == old(self).is_closed(),
    {
        if event.window == self.requestor && event.atom == self.property && event.deleted {
            self.awaiting = false;
            true
        } else {
            false
        }
    }

    /// True once something was written.
    pub fn has_started(&self) -> (r: bool)
        requires
            self.wf(),
        ensures
            r == (self.sent().len() > 0),
    {
        self.started
    }

    /// The next step.
    pub fn step(&mut self) -> (r: IncrStep)
        requires
            old(self).wf(),
        ensures
            final(self).wf(),
            final(self).same_channel(old(self)),
            final(self).taken() == old(self).taken(),
            final(self).held() == old(self).held(),
            final(self).is_ended() == old(self).is_ended(),
            match r {
                IncrStep::Done => old(self).is_closed() && *final(self) == *old(self),
                IncrStep::AwaitDelete => !old(self).is_closed() && old(self).is_awaiting()
                    && *final(self) == *old(self),
                IncrStep::Write(bytes) => {
                    &&& !old(self).is_closed() && !old(self).is_awaiting()
                    &&& 0 < bytes@.len() <= old(self).increment()
                    &&& final(self).sent() == old(self).sent() + bytes@
                    &&& final(self).sent().is_prefix_of(old(self).taken())
                    &&& bytes@.len() < old(self).increment() ==> final(self).sent()
                        == old(self).taken()
                    &&& final(self).is_awaiting() && !final(self).is_closed()
                },
                IncrStep::NeedData => {
                    &&& !old(self).is_closed() && !old(self).is_awaiting()
                    &&& !old(self).is_ended() && old(self).sent() == old(self).taken()
                    &&& *final(self) == *old(self)
                },
                IncrStep::Close => {
                    &&& !old(self).is_closed() && !old(self).is_awaiting()
                    &&& old(self).is_ended() && old(self).sent() == old(self).taken()
                    &&& final(self).sent() == old(self).sent()
                    &&& final(self).is_closed()
                },
            },
    {
        if self.closed {
            return IncrStep::Done;
        }
        if self.awaiting {
            return IncrStep::AwaitDelete;
        }
        let left: usize = self.piece.len() - self.at;
        if left > 0 {
            let n: usize = if left <= self.limit {
                left
            } else {
                self.limit
            };
            let mut out = SecretBytes::with_capacity(n);
            out.extend(vstd::slice::slice_subrange(self.piece.as_slice(), self.at, self.at + n));
            let ghost before = self.piece@.skip(self.at as int);
            let ghost sent = self.sent@;
            self.at = self.at + n;
            self.awaiting = true;
            self.started = true;
            self.sent = Ghost(sent + out@);
            proof {
                assert(out@ =~= before.take(n as int));
                assert(self.piece@.skip(self.at as int) =~= before.skip(n as int));
                assert(sent + before =~= (sent + out@) + before.skip(n as int));
                assert((sent + out@) =~= self.taken@.take((sent + out@).len() as int));
                if n == left {
                    assert(self.sent@ =~= self.taken@);
                }
            }
            return IncrStep::Write(out);
        }
        assert(self.sent@ =~= self.taken@);
        if self.ended {
            self.closed = true;
            IncrStep::Close
        } else {
            IncrStep::NeedData
        }
    }
}

/// A closed payload was written whole, in order, and the requestor took every
/// increment before the next one.
pub proof fn increments_make_the_payload(sender: IncrSender)
    requires
        sender.wf(),
        sender.is_closed(),
    ensures
        sender.is_ended(),
        sender.sent() == sender.taken(),
{
}

/// Serves a paste in increments: what was gathered of the source goes first,
/// and the rest follows as it is read, through the transform.
pub struct StreamedPaste {
    sender: IncrSender,
    head: Option<HeadTransform>,
    goal: Ghost<Seq<u8>>,
}

impl StreamedPaste {
    /// The payload that the requestor is to get, as far as the source is known.
    pub closed spec fn goal(&self) -> Seq<u8> {
        self.goal@
    }

    /// What is still to come passes through this transform.
    pub closed spec fn is_open(&self) -> bool {
        self.head is Some
    }

    /// The transform, and all of the source so far.
    pub closed spec fn source(&self) -> (Transform, Seq<u8>) {
        (self.head->0.rule(), self.head->0.taken())
    }

    /// All that was written.
    pub closed spec fn sent(&self) -> Seq<u8> {
        self.sender.sent()
    }

    /// All that can be written now was.
    pub closed spec fn is_drained(&self) -> bool {
        self.sender.sent() == self.sender.taken()
    }

    /// How many bytes are held in memory: the piece that was handed in last,
    /// and what the transform holds back.
    pub closed spec fn held(&self) -> nat {
        self.sender.held().len() + match self.head {
            Some(head) => head.held().len(),
            None => 0,
        }
    }

    /// The requestor still has to take what was written last.
    pub closed spec fn is_awaiting(&self) -> bool {
        self.sender.is_awaiting()
    }

    /// The payload was closed.
    pub closed spec fn is_closed(&self) -> bool {
        self.sender.is_closed()
    }

    /// The requestor's window and property, and the size of an increment.
    pub closed spec fn channel(&self) -> (u32, u32, usize) {
        (self.sender.channel().0, self.sender.channel().1, self.sender.increment())
    }

    /// What was handed to the requestor is what the goal asks for: all of it
    /// once the source ended, and what the transform gave until then.
    pub closed spec fn wf(&self) -> bool {
        &&& self.sender.wf()
        &&& match self.head {
            Some(head) => {
                &&& head.wf()
                &&& head.given() == self.sender.taken()
                &&& !self.sender.is_ended()
                &&& self.goal@ == mime::transformed(head.rule(), head.taken())
            },
            None => self.sender.is_ended() && self.sender.taken() == self.goal@,
        }
    }

    /// Starts on a paste whose announcement was just written: with these bytes
    /// first, and then with what the transform makes of the rest, if there is
    /// any.
    pub fn new(
        requestor: u32,
        property: u32,
        limit: usize,
        first: SecretBytes,
        rest: Option<HeadTransform>,
    ) -> (r: Self)
        requires
            limit > 0,
            rest matches Some(head) ==> head.wf() && head.given() == first@,
        ensures
            r.wf(),
            r.channel() == (requestor, property, limit),
            r.is_awaiting() && !r.is_closed(),
            r.sent() == Seq::<u8>::empty(),
            r.held() <= first@.len() + 5,
            r.is_open() == (rest is Some),
            rest matches Some(head) ==> r.source() == (head.rule(), head.taken()) && r.goal()
                == mime::transformed(head.rule(), head.taken()),
            rest is None ==> r.goal() == first@,
    {
        let ghost bytes = first@;
        let mut sender = IncrSender::new(requestor, property, limit);
        sender.offer(first);
        assert(sender.taken() =~= bytes);
        match rest {
            Some(head) => {
                let ghost goal = mime::transformed(head.rule(), head.taken());
                StreamedPaste { sender, head: Some(head), goal: Ghost(goal) }
            },
            None => {
                sender.end();
                StreamedPaste { sender, head: None, goal: Ghost(bytes) }
            },
        }
    }

    /// Hands in what the next read of the source gave; nothing means that the
    /// source ended. Of all that was read, only this piece is held now, and the
    /// few bytes that a transform adds or holds back.
    pub fn more(&mut self, piece: SecretBytes)
        requires
            old(self).wf(),
            old(self).is_open(),
            old(self).is_drained(),
        ensures
            final(self).wf(),
            final(self).channel() == old(self).channel(),
            final(self).is_awaiting() == old(self).is_awaiting(),
            final(self).is_closed() == old(self).is_closed(),
            final(self).sent() == old(self).sent(),
            final(self).held() <= piece@.len() + 5,
            final(self).is_open() == (piece@.len() > 0),
            final(self).goal() == mime::transformed(
                old(self).source().0,
                old(self).source().1 + piece@,
            ),
            piece@.len() > 0 ==> final(self).source() == (
                old(self).source().0,
                old(self).source().1 + piece@,
            ),
            piece@.len() > 0 ==> final(self).source().1.len() <= final(self).sent().len()
                + piece@.len() + 5,
    {
        let ghost rule = self.head->0.rule();
        let ghost taken = self.head->0.taken();
        let ghost goal = mime::transformed(rule, taken + piece@);
        if let Some(mut head) = self.head.take() {
            if piece.is_empty() {
                assert(taken + piece@ =~= taken);
                let tail = head.finish();
                self.sender.offer(tail);
                self.sender.end();
            } else {
                let out = head.push(piece);
                self.sender.offer(out);
                self.head = Some(head);
            }
        }
        self.goal = Ghost(goal);
    }

    /// A property changed: true when it is the requestor that took the last
    /// increment.
    pub fn deleted(&mut self, event: &PropertyNotify) -> (r: bool)
        requires
            old(self).wf(),
        ensures
            final(self).wf(),
            final(self).channel() == old(self).channel(),
            r == (event.window == old(self).channel().0 && event.atom == old(self).channel().1
                && event.deleted),
            final(self).is_awaiting() == (old(self).is_awaiting() && !r),
            final(self).is_closed() == old(self).is_closed(),
            final(self).is_open() == old(self).is_open(),
            final(self).source() == old(self).source(),
            final(self).goal() == old(self).goal(),
            final(self).held() == old(self).held(),
            final(self).sent() == old(self).sent(),
            final(self).is_drained() == old(self).is_drained(),
    {
        self.sender.deleted(event)
    }

    /// The requestor, or the source, has been silent for too long. Until the
    /// requestor took the announcement it has not said anything.
    pub open spec fn gives_up(&self, timeout: Option<u64>, silent_ms: nat) -> bool {
        stalled(self.sent().len() > 0, timeout, silent_ms)
    }

    /// True when the paste has been silent for too long.
    pub fn is_stalled(&self, timeout: Option<u64>, silent_ms: u64) -> (r: bool)
        requires
            self.wf(),
        ensures
            r == self.gives_up(timeout, silent_ms as nat),
    {
        is_stalled(self.sender.has_started(), timeout, silent_ms)
    }

    /// A window was destroyed: true when it is the requestor's.
    pub fn is_abandoned(&self, destroyed: u32) -> (r: bool)
        ensures
            r == (destroyed == self.channel().0),
    {
        destroyed == self.sender.requestor
    }

    /// The next step. The payload is closed only once the requestor was sent
    /// all of it.
    pub fn step(&mut self) -> (r: IncrStep)
        requires
            old(self).wf(),
        ensures
            final(self).wf(),
            final(self).channel() == old(self).channel(),
            final(self).is_open() == old(self).is_open(),
            final(self).source() == old(self).source(),
            final(self).goal() == old(self).goal(),
            final(self).held() == old(self).held(),
            match r {
                IncrStep::Done => old(self).is_closed() && final(self).is_closed()
                    && final(self).sent() == old(self).sent(),
                IncrStep::AwaitDelete => {
                    &&& !old(self).is_closed() && old(self).is_awaiting()
                    &&& final(self).is_awaiting() && !final(self).is_closed()
                    &&& final(self).sent() == old(self).sent()
                },
                IncrStep::Write(bytes) => {
                    &&& !old(self).is_closed() && !old(self).is_awaiting()
                    &&& 0 < bytes@.len() <= old(self).channel().2
                    &&& final(self).sent() == old(self).sent() + bytes@
                    &&& bytes@.len() < old(self).channel().2 ==> final(self).is_drained()
                    &&& final(self).is_awaiting() && !final(self).is_closed()
                },
                IncrStep::NeedData => {
                    &&& !old(self).is_closed() && !old(self).is_awaiting()
                    &&& old(self).is_open() && final(self).is_drained()
                    &&& final(self).sent() == old(self).sent()
                    &&& !final(self).is_awaiting() && !final(self).is_closed()
                },
                IncrStep::Close => {
                    &&& !old(self).is_closed() && !old(self).is_awaiting()
                    &&& !old(self).is_open()
                    &&& final(self).sent() == old(self).sent()
                    &&& final(self).sent() == final(self).goal()
                    &&& final(self).is_closed()
                },
            },
    {
        self.sender.step()
    }
}

/// A closed paste gave the requestor exactly the transformed source.
pub proof fn streamed_pastes_are_complete(paste: StreamedPaste)
    requires
        paste.wf(),
        paste.is_closed(),
    ensures
        paste.sent() == paste.goal(),
        !paste.is_open(),
{
}

/// The most that one increment of a paste holds: what fits one property write,
/// and a chunk at most. Where a write holds no payload there can be none.
pub fn increment_limit(max_payload: usize) -> (r: Option<usize>)
    ensures
        r == (if max_payload == 0 {
            None
        } else if max_payload <= payload::CHUNK_SIZE {
            Some(max_payload)
        } else {
            Some(payload::CHUNK_SIZE)
        }),
{
    if max_payload == 0 {
        None
    } else if max_payload <= payload::CHUNK_SIZE {
        Some(max_payload)
    } else {
        Some(payload::CHUNK_SIZE)
    }
}

/// The size that announces a payload: what is known of it, as far as it can
/// be said.
pub fn announced_size(known: usize) -> (r: u32)
    ensures
        r == (if known <= u32::MAX {
            known as u32
        } else {
            u32::MAX
        }),
{
    if known <= 0xffff_ffff {
        known as u32
    } else {
        0xffff_ffff
    }
}

/// How long a transfer may stay silent, in milliseconds. The first byte is
/// always bounded: silence is never passed on. After that only an idle
/// timeout bounds it, if there is one.
pub open spec fn silence_limit(started: bool, timeout: Option<u64>) -> Option<nat> {
    let idle = match timeout {
        Some(seconds) => Some((seconds * 1000) as nat),
        None => None::<nat>,
    };
    if started {
        idle
    } else {
        match idle {
            Some(ms) if ms < x11::ANSWER_LIMIT_MS => Some(ms),
            _ => Some(x11::ANSWER_LIMIT_MS as nat),
        }
    }
}

/// A transfer has been silent for too long.
pub open spec fn stalled(started: bool, timeout: Option<u64>, silent_ms: nat) -> bool {
    silence_limit(started, timeout) matches Some(limit) && silent_ms > limit
}

/// True when a transfer has been silent for too long.
pub fn is_stalled(started: bool, timeout: Option<u64>, silent_ms: u64) -> (r: bool)
    ensures
        r == stalled(started, timeout, silent_ms as nat),
{
    let idle = match timeout {
        Some(seconds) => seconds <= u64::MAX / 1000 && silent_ms > seconds * 1000,
        None => false,
    };
    idle || (!started && silent_ms > x11::ANSWER_LIMIT_MS)
}

/// Only silence ends a transfer, never its length: without an idle timeout a
/// source, an owner or a requestor that has started may pause for as long as it
/// likes, and with one it may pause for that long each time.
pub proof fn slow_transfers_are_not_killed(
    source: RopeReader,
    owner: PropertyReader,
    requestor: StreamedPaste,
    timeout: Option<u64>,
    pause_ms: nat,
)
    requires
        timeout matches Some(seconds) ==> pause_ms <= seconds * 1000,
    ensures
        source.received().len() > 0 ==> !source.gives_up(timeout, pause_ms),
        owner.received().len() > 0 ==> !owner.gives_up(timeout, pause_ms),
        requestor.sent().len() > 0 ==> !requestor.gives_up(timeout, pause_ms),
{
}

/// Silence is never passed on: a source that gave no byte, an owner that gave
/// no byte, and a requestor that took none are given up after two seconds at
/// most, whatever the timeout.
pub proof fn silence_is_never_passed_on(
    source: RopeReader,
    owner: PropertyReader,
    requestor: StreamedPaste,
    timeout: Option<u64>,
    silent_ms: nat,
)
    requires
        silent_ms > 2000,
    ensures
        source.received().len() == 0 ==> source.gives_up(timeout, silent_ms),
        owner.received().len() == 0 ==> owner.gives_up(timeout, silent_ms),
        requestor.sent().len() == 0 ==> requestor.gives_up(timeout, silent_ms),
{
}

/// The X11 target that a Wayland paste is read from.
pub enum ReadTarget {
    Utf8String,
    LegacyString,
    Named(String),
}

/// The target, with its name as text.
pub enum TargetView {
    Utf8String,
    LegacyString,
    Named(Seq<char>),
}

impl View for ReadTarget {
    type V = TargetView;

    open spec fn view(&self) -> TargetView {
        match *self {
            ReadTarget::Utf8String => TargetView::Utf8String,
            ReadTarget::LegacyString => TargetView::LegacyString,
            ReadTarget::Named(name) => TargetView::Named(name@),
        }
    }
}

/// One way to read a type from the X11 owner.
pub struct Candidate {
    pub target: ReadTarget,
    /// The bytes are Latin-1 and wanted as UTF-8.
    pub from_latin1: bool,
    pub transform: Transform,
}

/// The way, with the target's name as text.
pub struct CandidateView {
    pub target: TargetView,
    pub from_latin1: bool,
    pub transform: Transform,
}

impl View for Candidate {
    type V = CandidateView;

    open spec fn view(&self) -> CandidateView {
        CandidateView {
            target: self.target@,
            from_latin1: self.from_latin1,
            transform: self.transform,
        }
    }
}

/// The ways to read a type, in the order in which they are tried. A planned
/// type is read from its planned target. Plain text is read as UTF-8, or else
/// as legacy Latin-1, converted unless that is what was asked for. Any other
/// type is read under its own name.
pub open spec fn ways_to_read(
    mime: Seq<char>,
    plan: Option<(Seq<char>, Transform)>,
) -> Seq<CandidateView> {
    match plan {
        Some((target, transform)) => seq![
            CandidateView { target: TargetView::Named(target), from_latin1: false, transform },
        ],
        None => if mime::plain_text(mime) {
            seq![
                CandidateView {
                    target: TargetView::Utf8String,
                    from_latin1: false,
                    transform: Transform::Identity,
                },
                CandidateView {
                    target: TargetView::LegacyString,
                    from_latin1: mime != "STRING"@,
                    transform: Transform::Identity,
                },
            ]
        } else {
            seq![
                CandidateView {
                    target: TargetView::Named(mime),
                    from_latin1: false,
                    transform: Transform::Identity,
                },
            ]
        },
    }
}

/// A Wayland client asked for a type that the X11 owner has.
pub struct X2wRequest {
    pub kind: SelKind,
    pub mime: String,
    /// The target to read in place of the type, and what to do to it.
    pub plan: Option<(String, Transform)>,
    /// Seconds without progress before the transfer is given up.
    pub timeout: Option<u64>,
}

/// A read plan with its target as text.
pub open spec fn plan_view(plan: Option<(String, Transform)>) -> Option<(Seq<char>, Transform)> {
    match plan {
        Some((target, transform)) => Some((target@, transform)),
        None => None,
    }
}

/// The ways to read what was asked for.
pub fn candidates(request: &X2wRequest) -> (r: Vec<Candidate>)
    ensures
        r@.map_values(|c: Candidate| c@) == ways_to_read(request.mime@, plan_view(request.plan)),
{
    let mut out: Vec<Candidate> = Vec::new();
    match &request.plan {
        Some((target, transform)) => {
            out.push(
                Candidate {
                    target: ReadTarget::Named(target.clone()),
                    from_latin1: false,
                    transform: *transform,
                },
            );
        },
        None => {
            if mime::is_plain_text(request.mime.as_str()) {
                out.push(
                    Candidate {
                        target: ReadTarget::Utf8String,
                        from_latin1: false,
                        transform: Transform::Identity,
                    },
                );
                out.push(
                    Candidate {
                        target: ReadTarget::LegacyString,
                        from_latin1: !text::same(request.mime.as_str(), "STRING"),
                        transform: Transform::Identity,
                    },
                );
            } else {
                out.push(
                    Candidate {
                        target: ReadTarget::Named(request.mime.clone()),
                        from_latin1: false,
                        transform: Transform::Identity,
                    },
                );
            }
        },
    }
    assert(out@.map_values(|c: Candidate| c@) =~= ways_to_read(
        request.mime@,
        plan_view(request.plan),
    ));
    out
}

/// What a selection notification says about a conversion that was asked for.
#[derive(Debug, Clone, Copy, PartialEq, Eq, Structural)]
pub enum Heard {
    /// It is about somebody else's request.
    Unrelated,
    /// The owner refuses this target: try the next way.
    Refused,
    /// The content is in this property.
    Ready(u32),
}

/// Reads a selection notification.
pub fn heard(win: u32, event: &SelectionNotify) -> (r: Heard)
    ensures
        r == (if event.requestor != win {
            Heard::Unrelated
        } else if event.property == x11::NONE {
            Heard::Refused
        } else {
            Heard::Ready(event.property)
        }),
{
    if event.requestor != win {
        Heard::Unrelated
    } else if event.property == x11::NONE {
        Heard::Refused
    } else {
        Heard::Ready(event.property)
    }
}

/// What to do next about a conversion that was asked for.
#[derive(Debug, Clone, Copy, PartialEq, Eq, Structural)]
pub enum AskStep {
    /// Wait for the answer.
    KeepWaiting,
    /// The owner refused: ask for the next target.
    AskNext,
    /// Look at the type of the property.
    Probe,
}

/// Asks the X11 owner for a type, one way after the other, until the owner
/// agrees to one.
pub struct X2wTransfer {
    win: u32,
    property: u32,
    owner: u32,
    ways: Vec<Candidate>,
    at: usize,
}

impl X2wTransfer {
    /// The ways that are left, the present one first.
    pub closed spec fn ways_left(&self) -> Seq<CandidateView> {
        self.ways@.map_values(|c: Candidate| c@).skip(self.at as int)
    }

    /// The window and the property that the content comes through.
    pub closed spec fn channel(&self) -> (u32, u32) {
        (self.win, self.property)
    }

    /// The window of the owner that is asked.
    pub closed spec fn owner(&self) -> u32 {
        self.owner
    }

    /// The present way is one of them, or there is none left.
    pub closed spec fn wf(&self) -> bool {
        self.at <= self.ways.len()
    }

    /// Starts on a request to the owner of the selection.
    pub fn new(request: &X2wRequest, win: u32, property: u32, owner: u32) -> (r: Self)
        ensures
            r.wf(),
            r.ways_left() == ways_to_read(request.mime@, plan_view(request.plan)),
            r.channel() == (win, property),
            r.owner() == owner,
    {
        let ways = candidates(request);
        let r = X2wTransfer { win, property, owner, ways, at: 0 };
        assert(r.ways_left() =~= ways_to_read(request.mime@, plan_view(request.plan)));
        r
    }

    /// The target to ask for; none where the owner refused them all, and the
    /// paste is empty.
    pub fn target(&self) -> (r: Option<&ReadTarget>)
        requires
            self.wf(),
        ensures
            r matches Some(target) ==> self.ways_left().len() > 0 && target@
                == self.ways_left()[0].target,
            r is None ==> self.ways_left().len() == 0,
    {
        if self.at < self.ways.len() {
            Some(&self.ways[self.at].target)
        } else {
            None
        }
    }

    /// A selection notification came. A refusal moves on to the next way.
    pub fn answered(&mut self, event: &SelectionNotify) -> (r: AskStep)
        requires
            old(self).wf(),
            old(self).ways_left().len() > 0,
        ensures
            final(self).wf(),
            final(self).channel() == old(self).channel(),
            final(self).owner() == old(self).owner(),
            r == (if event.requestor != old(self).channel().0 {
                AskStep::KeepWaiting
            } else if event.property == x11::NONE {
                AskStep::AskNext
            } else {
                AskStep::Probe
            }),
            final(self).ways_left() == (if r is AskNext {
                old(self).ways_left().drop_first()
            } else {
                old(self).ways_left()
            }),
    {
        let ghost before = self.ways_left();
        match heard(self.win, event) {
            Heard::Unrelated => AskStep::KeepWaiting,
            Heard::Ready(_) => AskStep::Probe,
            Heard::Refused => {
                self.at = self.at + 1;
                assert(self.ways_left() =~= before.drop_first());
                AskStep::AskNext
            },
        }
    }

    /// The type of the property is known: starts to read it, in the present
    /// way.
    pub fn probed(&self, type_: u32, incr: u32) -> (r: (PropertyReader, ReadStep))
        requires
            self.wf(),
            self.ways_left().len() > 0,
        ensures
            r.0.wf(),
            r.0.received() == Seq::<u8>::empty(),
            r.0.written() == Seq::<u8>::empty(),
            r.0.held() == Seq::<u8>::empty(),
            r.0.position() == 0,
            r.0.is_incremental() == (type_ == incr),
            r.0.channel() == self.channel(),
            r.0.owner() == self.owner(),
            r.0.rule() == (self.ways_left()[0].transform, self.ways_left()[0].from_latin1),
            r.1 == (if type_ == incr {
                ReadStep::DeleteAndAwait
            } else {
                ReadStep::Read(0)
            }),
    {
        let way = &self.ways[self.at];
        PropertyReader::begin(
            self.win,
            self.property,
            self.owner,
            type_,
            incr,
            way.from_latin1,
            way.transform,
        )
    }

    /// A window was destroyed: true when it is the owner's, and no answer comes
    /// any more.
    pub fn is_abandoned(&self, destroyed: u32) -> (r: bool)
        ensures
            r == (destroyed == self.owner()),
    {
        destroyed == self.owner
    }
}

/// How much of a property is read at once, in units of four bytes.
pub const READ_UNITS: u32 = 16384;

/// What to do next about a property that is read.
#[derive(Debug, Clone, Copy, PartialEq, Eq, Structural)]
pub enum ReadStep {
    /// Read the property from this offset on, in units of four bytes.
    Read(u32),
    /// Delete the property and wait for the next increment.
    DeleteAndAwait,
    /// Delete the property: the payload is complete.
    DeleteAndFinish,
}

/// What a payload becomes on its way to a Wayland client.
pub open spec fn delivered(transform: Transform, from_latin1: bool, payload: Seq<u8>) -> Seq<u8> {
    recoded(from_latin1, mime::transformed(transform, payload))
}

/// Bytes as they are, or Latin-1 as UTF-8.
pub open spec fn recoded(from_latin1: bool, bytes: Seq<u8>) -> Seq<u8> {
    if from_latin1 {
        vstd::utf8::encode_utf8(latin1_text(bytes))
    } else {
        bytes
    }
}

fn recode(from_latin1: bool, bytes: SecretBytes) -> (r: SecretBytes)
    ensures
        r@ == recoded(from_latin1, bytes@),
{
    if from_latin1 {
        latin1_to_utf8(bytes.as_slice())
    } else {
        bytes
    }
}

proof fn recoding_is_chunk_safe(from_latin1: bool, a: Seq<u8>, b: Seq<u8>)
    ensures
        recoded(from_latin1, a + b) == recoded(from_latin1, a) + recoded(from_latin1, b),
{
    latin1_is_chunk_safe(a, b);
}

/// Every character takes a byte at least.
proof fn encoding_never_shortens(text: Seq<char>)
    ensures
        vstd::utf8::encode_utf8(text).len() >= text.len(),
    decreases text.len(),
{
    if text.len() > 0 {
        encoding_never_shortens(text.drop_first());
    }
}

proof fn recoding_never_shortens(from_latin1: bool, bytes: Seq<u8>)
    ensures
        recoded(from_latin1, bytes).len() >= bytes.len(),
{
    encoding_never_shortens(latin1_text(bytes));
}

/// Reads a payload out of an X11 property, in one go or in increments.
pub struct PropertyReader {
    win: u32,
    property: u32,
    owner: u32,
    incremental: bool,
    started: bool,
    /// Where the next read of the current increment starts.
    offset: u32,
    from_latin1: bool,
    head: HeadTransform,
    written: Ghost<Seq<u8>>,
}

impl PropertyReader {
    /// All that was read.
    pub closed spec fn received(&self) -> Seq<u8> {
        self.head.taken()
    }

    /// All that was handed on.
    pub closed spec fn written(&self) -> Seq<u8> {
        self.written@
    }

    /// What is held back until the transform is decided.
    pub closed spec fn held(&self) -> Seq<u8> {
        self.head.held()
    }

    /// Where the next read starts.
    pub closed spec fn position(&self) -> u32 {
        self.offset
    }

    /// The payload comes in increments.
    pub closed spec fn is_incremental(&self) -> bool {
        self.incremental
    }

    /// The transform, and whether Latin-1 is converted.
    pub closed spec fn rule(&self) -> (Transform, bool) {
        (self.head.rule(), self.from_latin1)
    }

    /// The property that is read.
    pub closed spec fn channel(&self) -> (u32, u32) {
        (self.win, self.property)
    }

    /// The window of the owner that the payload comes from.
    pub closed spec fn owner(&self) -> u32 {
        self.owner
    }

    /// What was handed on is what became of all that was read.
    pub closed spec fn wf(&self) -> bool {
        &&& self.head.wf()
        &&& self.started == (self.head.taken().len() > 0)
        &&& self.written@ == recoded(self.from_latin1, self.head.given())
    }

    /// What a probe of the property's type says: how to go on.
    pub fn begin(
        win: u32,
        property: u32,
        owner: u32,
        type_: u32,
        incr: u32,
        from_latin1: bool,
        transform: Transform,
    ) -> (r: (Self, ReadStep))
        ensures
            r.0.wf(),
            r.0.received() == Seq::<u8>::empty(),
            r.0.written() == Seq::<u8>::empty(),
            r.0.held() == Seq::<u8>::empty(),
            r.0.position() == 0,
            r.0.is_incremental() == (type_ == incr),
            r.0.rule() == (transform, from_latin1),
            r.0.channel() == (win, property),
            r.0.owner() == owner,
            r.1 == (if type_ == incr {
                ReadStep::DeleteAndAwait
            } else {
                ReadStep::Read(0)
            }),
    {
        let reader = PropertyReader {
            win,
            property,
            owner,
            incremental: type_ == incr,
            started: false,
            offset: 0,
            from_latin1,
            head: HeadTransform::new(transform),
            written: Ghost(Seq::empty()),
        };
        proof {
            assert(latin1_text(Seq::empty()) =~= Seq::empty());
            assert(recoded(from_latin1, Seq::empty()) =~= Seq::empty());
        }
        let step = if type_ == incr {
            ReadStep::DeleteAndAwait
        } else {
            ReadStep::Read(0)
        };
        (reader, step)
    }

    /// Takes what a read gave, with the number of bytes left behind it, and
    /// gives what to hand on and how to go on. An increment that is empty
    /// ends the payload.
    pub fn piece(&mut self, value: SecretBytes, bytes_after: u32) -> (r: (SecretBytes, ReadStep))
        requires
            old(self).wf(),
            old(self).position() + value@.len() / 4 <= u32::MAX,
        ensures
            final(self).wf(),
            final(self).rule() == old(self).rule(),
            final(self).channel() == old(self).channel(),
            final(self).owner() == old(self).owner(),
            final(self).is_incremental() == old(self).is_incremental(),
            final(self).received() == old(self).received() + value@,
            final(self).written() == old(self).written() + r.0@,
            final(self).received().len() <= final(self).written().len() + 5,
            final(self).held().len() < 5,
            r.1 == (if bytes_after > 0 {
                ReadStep::Read((old(self).position() + value@.len() / 4) as u32)
            } else if old(self).is_incremental() && (old(self).position() > 0 || value@.len() > 0) {
                ReadStep::DeleteAndAwait
            } else {
                ReadStep::DeleteAndFinish
            }),
            final(self).position() == (if bytes_after > 0 {
                (old(self).position() + value@.len() / 4) as u32
            } else {
                0
            }),
    {
        let units: u32 = (value.len() / 4) as u32;
        let empty = value.is_empty();
        let first = self.offset == 0;
        self.started = self.started || !empty;
        let ghost given = self.head.given();
        let passed = self.head.push(value);
        let ghost more = passed@;
        let out = recode(self.from_latin1, passed);
        proof {
            recoding_is_chunk_safe(self.from_latin1, given, more);
            recoding_never_shortens(self.from_latin1, self.head.given());
        }
        self.written = Ghost(self.written@ + out@);
        if bytes_after > 0 {
            self.offset = self.offset + units;
            (out, ReadStep::Read(self.offset))
        } else {
            self.offset = 0;
            if self.incremental && !(first && empty) {
                (out, ReadStep::DeleteAndAwait)
            } else {
                (out, ReadStep::DeleteAndFinish)
            }
        }
    }

    /// The owner has been silent for too long.
    pub open spec fn gives_up(&self, timeout: Option<u64>, silent_ms: nat) -> bool {
        stalled(self.received().len() > 0, timeout, silent_ms)
    }

    /// True when the owner has been silent for too long.
    pub fn is_stalled(&self, timeout: Option<u64>, silent_ms: u64) -> (r: bool)
        requires
            self.wf(),
        ensures
            r == self.gives_up(timeout, silent_ms as nat),
    {
        is_stalled(self.started, timeout, silent_ms)
    }

    /// A window was destroyed: true when it is the owner's, and no increment
    /// comes any more.
    pub fn is_abandoned(&self, destroyed: u32) -> (r: bool)
        ensures
            r == (destroyed == self.owner()),
    {
        destroyed == self.owner
    }

    /// A property changed: true when it is the owner's next increment.
    pub fn arrived(&self, event: &PropertyNotify) -> (r: bool)
        ensures
            r == ((event.window, event.atom) == self.channel() && !event.deleted),
    {
        event.window == self.win && event.atom == self.property && !event.deleted
    }

    /// The payload ended: gives what is left to hand on.
    pub fn finish(self) -> (r: SecretBytes)
        requires
            self.wf(),
        ensures
            self.written() + r@ == delivered(self.rule().0, self.rule().1, self.received()),
    {
        let ghost given = self.head.given();
        let ghost written = self.written@;
        let from_latin1 = self.from_latin1;
        let rest = self.head.finish();
        proof {
            recoding_is_chunk_safe(from_latin1, given, rest@);
        }
        recode(from_latin1, rest)
    }
}

/// A type that is not plain text, and that nothing else stands in for, is read
/// from the owner's target of that name alone, and reaches the Wayland client
/// byte for byte.
pub proof fn other_types_are_read_byte_for_byte(mime: Seq<char>, bytes: Seq<u8>)
    requires
        !mime::plain_text(mime),
    ensures
        ({
            let ways = ways_to_read(mime, None);
            &&& ways.len() == 1
            &&& ways[0].target == TargetView::Named(mime)
            &&& delivered(ways[0].transform, ways[0].from_latin1, bytes) == bytes
        }),
{
}

/// Plain text is read from the UTF-8 target first, as it is, and from the
/// legacy target second: as it is where the legacy text is what was asked for,
/// and otherwise with each byte, a character of Latin-1, encoded as UTF-8.
pub proof fn text_is_read_as_utf8_first(mime: Seq<char>, bytes: Seq<u8>)
    requires
        mime::plain_text(mime),
    ensures
        ({
            let ways = ways_to_read(mime, None);
            &&& ways.len() == 2
            &&& ways[0].target is Utf8String
            &&& delivered(ways[0].transform, ways[0].from_latin1, bytes) == bytes
            &&& ways[1].target is LegacyString
            &&& delivered(ways[1].transform, ways[1].from_latin1, bytes) == if mime == "STRING"@ {
                bytes
            } else {
                vstd::utf8::encode_utf8(Seq::new(bytes.len(), |i: int| bytes[i] as char))
            }
        }),
{
    assert(latin1_text(bytes) =~= Seq::new(bytes.len(), |i: int| bytes[i] as char));
}

/// A type that another target stands in for is read from that target alone,
/// and reaches the Wayland client edited as planned.
pub proof fn planned_types_are_read_as_planned(
    mime: Seq<char>,
    target: Seq<char>,
    transform: Transform,
    bytes: Seq<u8>,
)
    ensures
        ({
            let ways = ways_to_read(mime, Some((target, transform)));
            &&& ways.len() == 1
            &&& ways[0].target == TargetView::Named(target)
            &&& delivered(ways[0].transform, ways[0].from_latin1, bytes) == mime::transformed(
                transform,
                bytes,
            )
        }),
{
}

/// Bytes are taken for Latin-1 only where they were read from the legacy
/// target.
pub proof fn only_legacy_text_is_recoded(
    mime: Seq<char>,
    plan: Option<(Seq<char>, Transform)>,
    i: int,
)
    requires
        0 <= i < ways_to_read(mime, plan).len(),
        !(ways_to_read(mime, plan)[i].target is LegacyString),
    ensures
        !ways_to_read(mime, plan)[i].from_latin1,
{
}

/// A read, from the request to the last byte: where the first way that the
/// request gives is the one that the owner agrees to, a type that is not plain
/// text and has no plan is handed on exactly as it was received.
pub proof fn what_is_received_is_handed_on(
    request: X2wRequest,
    win: u32,
    property: u32,
    owner: u32,
    asked: X2wTransfer,
    type_: u32,
    incr: u32,
    begun: (PropertyReader, ReadStep),
    reader: PropertyReader,
    rest: SecretBytes,
)
    requires
        request.plan is None,
        !mime::plain_text(request.mime@),
        call_ensures(X2wTransfer::new, (&request, win, property, owner), asked),
        call_ensures(X2wTransfer::probed, (&asked, type_, incr), begun),
        reader.rule() == begun.0.rule(),
        call_ensures(PropertyReader::finish, (reader,), rest),
    ensures
        reader.written() + rest@ == reader.received(),
        asked.channel() == (win, property),
        asked.owner() == owner,
        begun.0.channel() == (win, property),
        begun.0.owner() == owner,
        begun.0.received().len() == 0,
        begun.1 == (if type_ == incr {
            ReadStep::DeleteAndAwait
        } else {
            ReadStep::Read(0)
        }),
{
}

/// The ways that a request gives are those of its type and its plan, each
/// handed out as it is.
pub proof fn requests_are_read_in_their_ways(request: X2wRequest, ways: Vec<Candidate>, i: int)
    requires
        call_ensures(candidates, (&request,), ways),
        0 <= i < ways.len(),
    ensures
        request.plan is None && !mime::plain_text(request.mime@) ==> {
            &&& ways.len() == 1
            &&& ways[0].target matches ReadTarget::Named(name) && name@ == request.mime@
            &&& !ways[0].from_latin1
            &&& ways[0].transform is Identity
        },
        request.plan is None && mime::plain_text(request.mime@) ==> {
            &&& ways.len() == 2
            &&& ways[0].target is Utf8String && !ways[0].from_latin1
            &&& ways[1].target is LegacyString && ways[1].from_latin1 == (request.mime@
                != "STRING"@)
            &&& ways[i].transform is Identity
        },
        request.plan matches Some((target, transform)) ==> {
            &&& ways.len() == 1
            &&& ways[0].target matches ReadTarget::Named(name) && name@ == target@
            &&& !ways[0].from_latin1
            &&& ways[0].transform == transform
        },
{
    let views = ways@.map_values(|c: Candidate| c@);
    assert(views == ways_to_read(request.mime@, plan_view(request.plan)));
    assert(views[0] == ways@[0]@);
    assert(views[i] == ways@[i]@);
    if views.len() == 2 {
        assert(views[1] == ways@[1]@);
    }
}

/// What a whole source is served as. Nothing at all is a refusal. Untouched
/// bytes are served as they are. For the legacy text target each character is
/// served as one byte, `?` where Latin-1 lacks it; bytes that are no UTF-8 are
/// refused there.
pub proof fn sources_are_served_faithfully(source: Seq<u8>)
    requires
        source.len() > 0,
    ensures
        served(Conv::Verbatim, Transform::Identity, source) == Ok::<Seq<u8>, Refusal>(source),
        !vstd::utf8::valid_utf8(source) ==> served(
            Conv::Utf8ToLatin1,
            Transform::Identity,
            source,
        ) == Err::<Seq<u8>, Refusal>(Refusal::NotText),
        vstd::utf8::valid_utf8(source) ==> {
            let text = vstd::utf8::decode_utf8(source);
            served(Conv::Utf8ToLatin1, Transform::Identity, source) == Ok::<Seq<u8>, Refusal>(
                Seq::new(
                    text.len(),
                    |i: int|
                        if text[i] as u32 <= 0xff {
                            text[i] as u8
                        } else {
                            '?' as u8
                        },
                ),
            )
        },
        served(Conv::Verbatim, Transform::Identity, Seq::empty()) == Err::<Seq<u8>, Refusal>(
            Refusal::EmptySource,
        ),
        served(Conv::Utf8ToLatin1, Transform::Identity, Seq::empty()) == Err::<Seq<u8>, Refusal>(
            Refusal::EmptySource,
        ),
{
    if vstd::utf8::valid_utf8(source) {
        let text = vstd::utf8::decode_utf8(source);
        assert(latin1_bytes(text) =~= Seq::new(
            text.len(),
            |i: int|
                if text[i] as u32 <= 0xff {
                    text[i] as u8
                } else {
                    '?' as u8
                },
        ));
    }
}

/// Edited bytes are served edited, and a source that is only an action line is
/// served as the empty list that it is.
pub proof fn edited_sources_are_served_edited(transform: Transform, source: Seq<u8>)
    requires
        source.len() > 0,
    ensures
        served(Conv::Verbatim, transform, source) == Ok::<Seq<u8>, Refusal>(
            mime::transformed(transform, source),
        ),
{
}

/// A payload that fits one property is written at once, one that does not is
/// sent in increments, and the bytes are the same.
pub proof fn serving_keeps_the_bytes(
    reply: PasteReply,
    outcome: ReadOutcome,
    max_payload: usize,
    source: Seq<u8>,
    how: Serve,
)
    requires
        call_ensures(serve, (&reply, outcome, max_payload), how),
        outcome@ == payload::OutcomeView::Complete(source),
        source.len() > 0,
        reply.conversion is Verbatim,
        reply.transform is Identity,
    ensures
        source.len() <= max_payload ==> (how matches Serve::Property(bytes) && bytes@ == source),
        source.len() > max_payload ==> (how matches Serve::Stream { first, rest } && first@
            == source && rest is None),
{
}

/// An answer names the requestor, the selection, the target and the time of the
/// request, and the property that holds the content, or none for a refusal.
pub proof fn answers_name_the_request(req: SelectionRequest, property: u32)
    ensures
        answer(req, Some(property)) == (SelectionNotify {
            time: req.time,
            requestor: req.requestor,
            selection: req.selection,
            target: req.target,
            property,
        }),
        answer(req, None) == (SelectionNotify {
            time: req.time,
            requestor: req.requestor,
            selection: req.selection,
            target: req.target,
            property: 0,
        }),
{
}

/// A transfer is given up exactly if it was silent for longer than the timeout,
/// where there is one, or for more than two seconds before its first byte.
pub proof fn when_silence_is_too_long(started: bool, timeout: Option<u64>, silent_ms: nat)
    ensures
        stalled(started, timeout, silent_ms) <==> (timeout is Some && silent_ms > timeout->0 * 1000)
            || (!started && silent_ms > 2000),
{
}

/// A notification is about the bridge's request if it names the bridge's
/// window; it then says where the content is, unless it names no property.
pub proof fn notifications_are_understood(win: u32, event: SelectionNotify, says: Heard)
    requires
        call_ensures(heard, (win, &event), says),
    ensures
        event.requestor != win ==> says is Unrelated,
        event.requestor == win && event.property == 0 ==> says is Refused,
        event.requestor == win && event.property != 0 ==> says == Heard::Ready(event.property),
{
}

/// Converted pastes are gathered whole and the others up to what fits one
/// property; an increment fits one property and one chunk, and is as large as
/// that; a size is announced as it is as long as it can be.
pub proof fn sizes_are_as_large_as_they_can_be(
    max_payload: usize,
    whole: Option<usize>,
    part: Option<usize>,
    increment: Option<usize>,
    known: usize,
    announced: u32,
)
    requires
        call_ensures(read_cap, (Conv::Utf8ToLatin1, max_payload), whole),
        call_ensures(read_cap, (Conv::Verbatim, max_payload), part),
        call_ensures(increment_limit, (max_payload,), increment),
        call_ensures(announced_size, (known,), announced),
    ensures
        whole is None,
        part == Some(max_payload),
        increment is Some <==> max_payload > 0,
        increment matches Some(n) ==> n <= max_payload && n <= 65536 && (n == max_payload || n
            == 65536),
        known <= 0xffff_ffff ==> announced == known,
        known > 0xffff_ffff ==> announced == 0xffff_ffff,
{
}

/// A paste that is sent in increments sends what it was given first and then
/// what the transform makes of the rest, through the property that it answers
/// with, and begins by waiting for the requestor.
pub proof fn streams_send_what_they_were_given(
    requestor: u32,
    property: u32,
    limit: usize,
    first: SecretBytes,
    rest: Option<HeadTransform>,
    paste: StreamedPaste,
)
    requires
        call_ensures(StreamedPaste::new, (requestor, property, limit, first, rest), paste),
    ensures
        rest is None ==> paste.goal() == first@ && !paste.is_open(),
        rest is Some ==> paste.goal() == mime::transformed(rest->0.rule(), rest->0.taken())
            && paste.is_open() && paste.source() == (rest->0.rule(), rest->0.taken()),
        paste.channel() == (requestor, property, limit),
        paste.sent().len() == 0,
        paste.is_awaiting() && !paste.is_closed(),
{
}

/// More of a source is more of the goal; the end of the source closes it. What
/// was sent stays sent.
pub proof fn streams_take_more_of_their_source(paste: &mut StreamedPaste, piece: SecretBytes)
    requires
        call_ensures(StreamedPaste::more, (paste, piece), ()),
    ensures
        final(paste).goal() == mime::transformed(
            old(paste).source().0,
            old(paste).source().1 + piece@,
        ),
        final(paste).is_open() <==> piece@.len() > 0,
        piece@.len() > 0 ==> final(paste).source() == (
            old(paste).source().0,
            old(paste).source().1 + piece@,
        ),
        final(paste).sent() == old(paste).sent(),
        final(paste).channel() == old(paste).channel(),
        final(paste).is_awaiting() == old(paste).is_awaiting(),
{
}

/// A step of a paste: nothing is written while the requestor has not taken the
/// last increment, each increment is within its limit and goes behind what was
/// sent, and the paste is closed only when all of the goal was sent.
pub proof fn streams_go_step_by_step(paste: &mut StreamedPaste, what: IncrStep)
    requires
        call_ensures(StreamedPaste::step, (paste,), what),
    ensures
        final(paste).goal() == old(paste).goal(),
        final(paste).channel() == old(paste).channel(),
        old(paste).is_closed() <==> what is Done,
        !old(paste).is_closed() && old(paste).is_awaiting() <==> what is AwaitDelete,
        what matches IncrStep::Write(bytes) ==> 0 < bytes@.len() <= old(paste).channel().2
            && final(paste).sent() == old(paste).sent() + bytes@ && final(paste).is_awaiting(),
        !(what is Write) ==> final(paste).sent() == old(paste).sent(),
        what is Close ==> final(paste).sent() == final(paste).goal() && final(paste).is_closed()
            && !old(paste).is_open(),
        what is NeedData ==> old(paste).is_open() && final(paste).is_drained(),
{
}

/// An increment was taken exactly if the requestor deleted the property that
/// the paste goes through.
pub proof fn deletions_are_recognised(
    paste: &mut StreamedPaste,
    event: PropertyNotify,
    taken: bool,
    gone: u32,
    abandoned: bool,
    other: StreamedPaste,
)
    requires
        call_ensures(StreamedPaste::deleted, (paste, &event), taken),
        call_ensures(StreamedPaste::is_abandoned, (&other, gone), abandoned),
    ensures
        taken <==> event.deleted && event.window == old(paste).channel().0 && event.atom == old(
            paste,
        ).channel().1,
        final(paste).is_awaiting() <==> old(paste).is_awaiting() && !taken,
        final(paste).sent() == old(paste).sent(),
        final(paste).goal() == old(paste).goal(),
        abandoned <==> gone == other.channel().0,
{
}

/// A transform that is applied piece by piece gives what it makes of the whole.
pub proof fn pieces_are_edited_as_a_whole(
    transform: Transform,
    made: HeadTransform,
    head: &mut HeadTransform,
    piece: SecretBytes,
    passed: SecretBytes,
    last: HeadTransform,
    rest: SecretBytes,
)
    requires
        call_ensures(HeadTransform::new, (transform,), made),
        call_ensures(HeadTransform::push, (head, piece), passed),
        call_ensures(HeadTransform::finish, (last,), rest),
    ensures
        made.rule() == transform,
        made.taken().len() == 0,
        made.given().len() == 0,
        final(head).rule() == old(head).rule(),
        final(head).taken() == old(head).taken() + piece@,
        final(head).given() == old(head).given() + passed@,
        last.given() + rest@ == mime::transformed(last.rule(), last.taken()),
{
}

/// A property is read piece by piece: what comes in is behind what came before,
/// and so is what is handed on. Reading goes on behind the piece while there is
/// more; the end of an increment waits for the next one, and an empty increment,
/// or the end of a property that is whole, ends the payload.
pub proof fn properties_are_read_to_their_end(
    reader: &mut PropertyReader,
    value: SecretBytes,
    bytes_after: u32,
    r: (SecretBytes, ReadStep),
)
    requires
        call_ensures(PropertyReader::piece, (reader, value, bytes_after), r),
        old(reader).position() + value@.len() / 4 <= u32::MAX,
    ensures
        final(reader).received() == old(reader).received() + value@,
        final(reader).written() == old(reader).written() + r.0@,
        final(reader).rule() == old(reader).rule(),
        bytes_after > 0 ==> r.1 == ReadStep::Read(
            (old(reader).position() + value@.len() / 4) as u32,
        ),
        bytes_after == 0 && !old(reader).is_incremental() ==> r.1 is DeleteAndFinish,
        bytes_after == 0 && old(reader).is_incremental() && value@.len() > 0
            ==> r.1 is DeleteAndAwait,
        bytes_after == 0 && old(reader).is_incremental() && value@.len() == 0 && old(
            reader,
        ).position() == 0 ==> r.1 is DeleteAndFinish,
        bytes_after == 0 ==> final(reader).position() == 0,
{
}

/// What an owner sends arrives through the property that was asked for, and an
/// owner whose window is gone sends nothing more.
pub proof fn arrivals_are_recognised(
    reader: PropertyReader,
    event: PropertyNotify,
    arrived: bool,
    gone: u32,
    lost: bool,
    asked: X2wTransfer,
    refused: bool,
)
    requires
        call_ensures(PropertyReader::arrived, (&reader, &event), arrived),
        call_ensures(PropertyReader::is_abandoned, (&reader, gone), lost),
        call_ensures(X2wTransfer::is_abandoned, (&asked, gone), refused),
    ensures
        arrived <==> !event.deleted && event.window == reader.channel().0 && event.atom
            == reader.channel().1,
        lost <==> gone == reader.owner(),
        refused <==> gone == asked.owner(),
{
}

/// An owner is asked in one way after the other: a refusal moves on to the next
/// way, an answer to somebody else changes nothing, and an answer with a
/// property is looked at.
pub proof fn refusals_move_on_to_the_next_way(
    asked: &mut X2wTransfer,
    event: SelectionNotify,
    what: AskStep,
)
    requires
        call_ensures(X2wTransfer::answered, (asked, &event), what),
    ensures
        event.requestor != old(asked).channel().0 ==> what is KeepWaiting,
        event.requestor == old(asked).channel().0 && event.property == 0 ==> what is AskNext,
        event.requestor == old(asked).channel().0 && event.property != 0 ==> what is Probe,
        what is AskNext ==> final(asked).ways_left() == old(asked).ways_left().drop_first(),
        !(what is AskNext) ==> final(asked).ways_left() == old(asked).ways_left(),
        final(asked).channel() == old(asked).channel(),
        final(asked).owner() == old(asked).owner(),
{
}

/// The target that is asked for is that of the present way; where none is left
/// nothing is asked for.
pub proof fn the_present_way_is_asked_for(asked: X2wTransfer, target: Option<&ReadTarget>)
    requires
        call_ensures(X2wTransfer::target, (&asked,), target),
    ensures
        asked.ways_left().len() > 0 ==> target is Some && target->0@
            == asked.ways_left()[0].target,
        asked.ways_left().len() == 0 ==> target is None,
{
}

/// A target is named as it is asked for.
pub proof fn targets_are_named_as_they_are(name: String, way: Candidate)
    ensures
        ReadTarget::Utf8String@ is Utf8String,
        ReadTarget::LegacyString@ is LegacyString,
        ReadTarget::Named(name)@ == TargetView::Named(name@),
        way@.target == way.target@,
        way@.from_latin1 == way.from_latin1,
        way@.transform == way.transform,
{
}

/// Recoding, editing and answering do what is stated of them.
pub proof fn bytes_are_handled_as_stated(
    data: &[u8],
    wide: SecretBytes,
    narrow: Option<SecretBytes>,
    transform: Transform,
    edited: SecretBytes,
    req: SelectionRequest,
    property: Option<u32>,
    said: SelectionNotify,
)
    requires
        call_ensures(latin1_to_utf8, (data,), wide),
        call_ensures(utf8_to_latin1, (data,), narrow),
        call_ensures(apply_transform, (transform, data), edited),
        call_ensures(notify, (&req, property), said),
    ensures
        wide@ == vstd::utf8::encode_utf8(Seq::new(data@.len(), |i: int| data@[i] as char)),
        narrow is Some <==> vstd::utf8::valid_utf8(data@),
        narrow matches Some(bytes) ==> bytes@ == latin1_bytes(vstd::utf8::decode_utf8(data@)),
        edited@ == mime::transformed(transform, data@),
        said.time == req.time && said.requestor == req.requestor && said.selection == req.selection
            && said.target == req.target,
        said.property == (match property {
            Some(p) => p,
            None => 0,
        }),
{
    assert(latin1_text(data@) =~= Seq::new(data@.len(), |i: int| data@[i] as char));
}

/// One read of a property asks for as much as one chunk holds.
pub proof fn one_read_is_one_chunk()
    ensures
        READ_UNITS * 4 == 65536,
        payload::CHUNK_SIZE == 65536,
{
}

} // verus!
