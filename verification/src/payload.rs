//! Payload buffers.
//!
//! Clipboard bytes live in buffers that are zeroed when dropped. A buffer that
//! grows may hand its old block back to the allocator with the bytes still in
//! it, so a payload is gathered in chunks of a fixed size rather than in one
//! growing buffer.

use std::sync::Arc;

use vstd::prelude::*;

use crate::text;
use crate::transfer;

verus! {

/// The size of every chunk but the last.
pub const CHUNK_SIZE: usize = 65536;

/// The bytes that a secret buffer holds.
pub uninterp spec fn secret_bytes(buffer: SecretBytes) -> Seq<u8>;

/// A buffer that is zeroed when it is dropped: `zeroize::Zeroizing` around a
/// vector of bytes.
#[verifier::external_body]
pub struct SecretBytes {
    inner: zeroize::Zeroizing<Vec<u8>>,
}

impl View for SecretBytes {
    type V = Seq<u8>;

    open spec fn view(&self) -> Seq<u8> {
        secret_bytes(*self)
    }
}

/// `zeroize::Zeroizing::new`: the buffer holds the bytes of the vector that
/// it takes over.
#[verifier::external_body]
fn guard(bytes: Vec<u8>) -> (r: SecretBytes)
    ensures
        secret_bytes(r) == bytes@,
{
    SecretBytes { inner: zeroize::Zeroizing::new(bytes) }
}

/// `zeroize::Zeroizing::deref`: the vector inside the buffer, to read.
#[verifier::external_body]
fn guarded(buffer: &SecretBytes) -> (r: &Vec<u8>)
    ensures
        r@ == secret_bytes(*buffer),
{
    &buffer.inner
}

/// `zeroize::Zeroizing::deref_mut`: the vector inside the buffer, to change;
/// what is left in it is what the buffer then holds.
#[verifier::external_body]
fn guarded_mut(buffer: &mut SecretBytes) -> (r: &mut Vec<u8>)
    ensures
        r@ == secret_bytes(*old(buffer)),
        secret_bytes(*final(buffer)) == final(r)@,
{
    &mut buffer.inner
}

impl SecretBytes {
    /// Takes over a vector of bytes.
    pub fn new(bytes: Vec<u8>) -> (r: Self)
        ensures
            r@ == bytes@,
    {
        guard(bytes)
    }

    /// An empty buffer with room for `capacity` bytes.
    pub fn with_capacity(capacity: usize) -> (r: Self)
        ensures
            r@ == Seq::<u8>::empty(),
    {
        guard(Vec::with_capacity(capacity))
    }

    /// The number of bytes.
    pub fn len(&self) -> (r: usize)
        ensures
            r == self@.len(),
    {
        guarded(self).len()
    }

    /// True when there are no bytes.
    pub fn is_empty(&self) -> (r: bool)
        ensures
            r == (self@.len() == 0),
    {
        guarded(self).len() == 0
    }

    /// The bytes.
    pub fn as_slice(&self) -> (r: &[u8])
        ensures
            r@ == self@,
    {
        guarded(self).as_slice()
    }

    /// Appends one byte.
    pub fn push(&mut self, byte: u8)
        ensures
            final(self)@ == old(self)@.push(byte),
    {
        guarded_mut(self).push(byte);
    }

    /// Appends bytes.
    pub fn extend(&mut self, bytes: &[u8])
        ensures
            final(self)@ == old(self)@ + bytes@,
    {
        guarded_mut(self).extend_from_slice(bytes);
    }

    /// Drops what stands from `len` on.
    pub fn truncate(&mut self, len: usize)
        requires
            len <= old(self)@.len(),
        ensures
            final(self)@ == old(self)@.take(len as int),
    {
        guarded_mut(self).truncate(len);
    }

    /// The bytes from `at` on, to be overwritten.
    pub fn tail_mut(&mut self, at: usize) -> (r: &mut [u8])
        requires
            at <= old(self)@.len(),
        ensures
            r@ == old(self)@.skip(at as int),
            final(r)@.len() == r@.len() ==> final(self)@ == old(self)@.take(at as int) + final(r)@,
    {
        let (_, tail) = guarded_mut(self).as_mut_slice().split_at_mut(at);
        tail
    }
}

/// The parts of a payload, one behind the other.
pub open spec fn joined(parts: Seq<Seq<u8>>) -> Seq<u8>
    decreases parts.len(),
{
    if parts.len() == 0 {
        seq![]
    } else {
        joined(parts.drop_last()) + parts.last()
    }
}

/// Joining two rows of parts is joining each and then the two.
pub proof fn joined_splits(a: Seq<Seq<u8>>, b: Seq<Seq<u8>>)
    ensures
        joined(a + b) == joined(a) + joined(b),
    decreases b.len(),
{
    if b.len() == 0 {
        assert(a + b =~= a);
        assert(joined(a) + joined(b) =~= joined(a));
    } else {
        assert((a + b).drop_last() =~= a + b.drop_last());
        assert((a + b).last() == b.last());
        joined_splits(a, b.drop_last());
        assert(joined(a + b) =~= joined(a) + joined(b));
    }
}

/// The first part comes first.
proof fn joined_from(parts: Seq<Seq<u8>>, i: int)
    requires
        0 <= i < parts.len(),
    ensures
        joined(parts.skip(i)) == parts[i] + joined(parts.skip(i + 1)),
{
    let one = seq![parts[i]];
    assert(parts.skip(i) =~= one + parts.skip(i + 1));
    joined_splits(one, parts.skip(i + 1));
    assert(one.drop_last() =~= seq![]);
    assert(joined(one.drop_last()) =~= seq![]);
    assert(joined(one) =~= parts[i]);
}

/// A part more is its bytes more.
proof fn joined_push(parts: Seq<Seq<u8>>, part: Seq<u8>)
    ensures
        joined(parts.push(part)) == joined(parts) + part,
{
    assert(parts.push(part).drop_last() =~= parts);
}

/// The bytes of every chunk.
pub open spec fn contents(chunks: Seq<SecretBytes>) -> Seq<Seq<u8>> {
    chunks.map_values(|c: SecretBytes| c@)
}

/// The parts are cut to the chunk size: none is empty, none is longer than a
/// chunk, and all but the last are exactly that long.
pub open spec fn cut_in_chunks(parts: Seq<Seq<u8>>) -> bool {
    &&& forall|i: int| 0 <= i < parts.len() ==> 0 < (#[trigger] parts[i]).len() <= CHUNK_SIZE
    &&& forall|i: int| 0 <= i < parts.len() - 1 ==> (#[trigger] parts[i]).len() == CHUNK_SIZE
}

/// The bytes of full parts.
proof fn full_parts_len(parts: Seq<Seq<u8>>)
    requires
        forall|i: int| 0 <= i < parts.len() ==> (#[trigger] parts[i]).len() == CHUNK_SIZE,
    ensures
        joined(parts).len() == parts.len() * CHUNK_SIZE,
    decreases parts.len(),
{
    if parts.len() > 0 {
        full_parts_len(parts.drop_last());
        assert(parts.len() * CHUNK_SIZE == (parts.len() - 1) * CHUNK_SIZE + CHUNK_SIZE)
            by (nonlinear_arith);
    }
}

/// A payload can be cut into chunks in one way only.
pub proof fn chunks_are_determined(a: Seq<Seq<u8>>, b: Seq<Seq<u8>>)
    requires
        cut_in_chunks(a),
        cut_in_chunks(b),
        joined(a) == joined(b),
    ensures
        a == b,
    decreases a.len(),
{
    if a.len() == 0 || b.len() == 0 {
        if a.len() > 0 {
            assert(a[a.len() - 1].len() > 0);
        }
        if b.len() > 0 {
            assert(b[b.len() - 1].len() > 0);
        }
        assert(a =~= b);
    } else {
        let (m, n) = (a.len() - 1, b.len() - 1);
        let (x, y) = (a.last(), b.last());
        full_parts_len(a.drop_last());
        full_parts_len(b.drop_last());
        assert(0 < a[m].len() <= CHUNK_SIZE && 0 < b[n].len() <= CHUNK_SIZE);
        let total = joined(a);
        assert(total.len() == m * CHUNK_SIZE + x.len());
        assert(total.len() == n * CHUNK_SIZE + y.len());
        assert(m == n) by (nonlinear_arith)
            requires
                m * CHUNK_SIZE + x.len() == n * CHUNK_SIZE + y.len(),
                0 < x.len() <= CHUNK_SIZE,
                0 < y.len() <= CHUNK_SIZE,
                CHUNK_SIZE == 65536,
        ;
        assert(x.len() == y.len());
        let k = total.len() - x.len();
        assert(joined(a.drop_last()) =~= total.take(k));
        assert(joined(b.drop_last()) =~= total.take(k));
        assert(x =~= total.skip(k));
        assert(y =~= total.skip(k));
        chunks_are_determined(a.drop_last(), b.drop_last());
        assert(a =~= a.drop_last().push(x));
        assert(b =~= b.drop_last().push(y));
    }
}

/// A rope of zeroizing chunks. The outer `Vec` holds only pointers and lengths.
pub struct PayloadRope {
    chunks: Vec<SecretBytes>,
    len: usize,
}

impl View for PayloadRope {
    type V = Seq<u8>;

    closed spec fn view(&self) -> Seq<u8> {
        joined(contents(self.chunks@))
    }
}

impl Default for PayloadRope {
    fn default() -> (r: Self)
        ensures
            r@ == Seq::<u8>::empty(),
    {
        PayloadRope { chunks: Vec::new(), len: 0 }
    }
}

impl PayloadRope {
    /// The payload is cut in chunks, and the length is that of the chunks
    /// together.
    #[verifier::type_invariant]
    spec fn consistent(self) -> bool {
        &&& self.len == joined(contents(self.chunks@)).len()
        &&& cut_in_chunks(contents(self.chunks@))
    }

    /// The bytes of each chunk, in order.
    pub closed spec fn parts(&self) -> Seq<Seq<u8>> {
        contents(self.chunks@)
    }

    /// The number of bytes.
    pub fn len(&self) -> (r: usize)
        ensures
            r == self@.len(),
    {
        proof {
            use_type_invariant(self);
        }
        self.len
    }

    /// True when there are no bytes.
    pub fn is_empty(&self) -> (r: bool)
        ensures
            r == (self@.len() == 0),
    {
        proof {
            use_type_invariant(self);
        }
        self.len == 0
    }

    /// The chunks in order, for chunked serving.
    pub fn chunks(&self) -> (r: Vec<&[u8]>)
        ensures
            r@.map_values(|c: &[u8]| c@) == self.parts(),
            joined(self.parts()) == self@,
            cut_in_chunks(self.parts()),
            forall|i: int| 0 <= i < r@.len() ==> 0 < (#[trigger] r@[i])@.len() <= CHUNK_SIZE,
            forall|i: int| 0 <= i < r@.len() - 1 ==> (#[trigger] r@[i])@.len() == CHUNK_SIZE,
    {
        proof {
            use_type_invariant(self);
        }
        let mut out: Vec<&[u8]> = Vec::new();
        for i in 0..self.chunks.len()
            invariant
                out@.len() == i,
                forall|j: int| 0 <= j < i ==> (#[trigger] out@[j])@ == self.chunks@[j]@,
        {
            out.push(self.chunks[i].as_slice());
        }
        assert(out@.map_values(|c: &[u8]| c@) =~= self.parts());
        assert forall|i: int| 0 <= i < out@.len() implies (#[trigger] out@[i])@ == self.parts()[i] by {
            assert(out@[i]@ == self.chunks@[i]@);
        }
        out
    }

    /// The one contiguous copy: an X11 property that is written at once needs
    /// a single slice. Room for all of it is asked for at the start.
    pub fn to_contiguous(&self) -> (r: SecretBytes)
        ensures
            r@ == self@,
    {
        let mut out = SecretBytes::with_capacity(self.len);
        let ghost parts = contents(self.chunks@);
        for i in 0..self.chunks.len()
            invariant
                parts == contents(self.chunks@),
                out@ == joined(parts.take(i as int)),
        {
            out.extend(self.chunks[i].as_slice());
            proof {
                assert(parts.take(i + 1) =~= parts.take(i as int).push(parts[i as int]));
                joined_push(parts.take(i as int), parts[i as int]);
            }
        }
        assert(parts.take(parts.len() as int) =~= parts);
        out
    }
}

/// What reading a source to its end gave.
pub enum ReadOutcome {
    /// The source ended within the cap.
    Complete(PayloadRope),
    /// The running total crossed the cap. The rope holds what was read so far
    /// (at most the cap and one chunk); more may remain in the source.
    Overflow(PayloadRope),
}

/// The bytes gathered, and whether the cap was crossed.
pub enum OutcomeView {
    Complete(Seq<u8>),
    Overflow(Seq<u8>),
}

impl View for ReadOutcome {
    type V = OutcomeView;

    open spec fn view(&self) -> OutcomeView {
        match *self {
            ReadOutcome::Complete(rope) => OutcomeView::Complete(rope@),
            ReadOutcome::Overflow(rope) => OutcomeView::Overflow(rope@),
        }
    }
}

/// How many of `n` bytes stand in full chunks.
pub open spec fn in_full_chunks(n: nat) -> nat {
    (n - n % (CHUNK_SIZE as nat)) as nat
}

/// More bytes than the cap allows.
pub open spec fn over(n: nat, cap: Option<usize>) -> bool {
    cap matches Some(c) && n > c
}

/// Where reading stops once the cap is crossed: at the end of the chunk that
/// crosses it.
pub open spec fn stop(cap: usize) -> nat {
    ((cap / CHUNK_SIZE) as nat + 1) * (CHUNK_SIZE as nat)
}

/// What a source of these bytes gives: all of them, or, where they exceed the
/// cap, those up to the end of the chunk that crosses it.
pub open spec fn gathered(source: Seq<u8>, cap: Option<usize>) -> OutcomeView {
    match cap {
        Some(c) if source.len() > c => OutcomeView::Overflow(
            if source.len() <= stop(c) {
                source
            } else {
                source.take(stop(c) as int)
            },
        ),
        _ => OutcomeView::Complete(source),
    }
}

/// What is held of a source never exceeds the cap by more than one chunk.
pub proof fn memory_is_bounded(source: Seq<u8>, cap: usize)
    ensures
        match gathered(source, Some(cap)) {
            OutcomeView::Complete(held) => held.len() <= cap,
            OutcomeView::Overflow(held) => cap < held.len() <= cap + CHUNK_SIZE,
        },
{
    vstd::arithmetic::div_mod::lemma_fundamental_div_mod(cap as int, CHUNK_SIZE as int);
}

/// A source within the cap is held whole, in order.
pub proof fn within_the_cap_nothing_is_lost(source: Seq<u8>, cap: Option<usize>)
    requires
        !over(source.len(), cap),
    ensures
        gathered(source, cap) == OutcomeView::Complete(source),
{
}

/// Gathers a source, read piece by piece, into a rope. Each chunk is allocated
/// at its full size, filled in place and cut to what was read. The cap is
/// checked chunk by chunk.
pub struct RopeReader {
    chunks: Vec<SecretBytes>,
    len: usize,
    cap: Option<usize>,
    chunk: SecretBytes,
    filled: usize,
    ended: bool,
}

impl RopeReader {
    /// Everything read so far.
    pub closed spec fn received(&self) -> Seq<u8> {
        joined(contents(self.chunks@)) + self.chunk@.take(self.filled as int)
    }

    /// The room that the next read may fill.
    pub closed spec fn room(&self) -> Seq<u8> {
        self.chunk@.skip(self.filled as int)
    }

    /// The cap.
    pub closed spec fn limit(&self) -> Option<usize> {
        self.cap
    }

    /// The source ended, or the cap was crossed.
    pub closed spec fn is_done(&self) -> bool {
        self.ended
    }

    /// The reader is consistent.
    pub closed spec fn wf(&self) -> bool {
        let held = joined(contents(self.chunks@)).len();
        &&& self.len == held
        &&& forall|i: int|
            0 <= i < self.chunks@.len() ==> (#[trigger] contents(self.chunks@)[i]).len()
                == CHUNK_SIZE
        &&& held % (CHUNK_SIZE as nat) == 0
        &&& self.chunk@.len() == CHUNK_SIZE
        &&& self.filled < CHUNK_SIZE
        &&& over(held, self.cap) ==> self.ended && self.filled == 0 && held == stop(self.cap->0)
    }

    /// Starts to gather a source.
    pub fn new(cap: Option<usize>) -> (r: Self)
        ensures
            r.wf(),
            r.received() == Seq::<u8>::empty(),
            r.limit() == cap,
            !r.is_done(),
            r.room().len() == CHUNK_SIZE,
    {
        RopeReader {
            chunks: Vec::new(),
            len: 0,
            cap,
            chunk: SecretBytes::new(vec![0u8; CHUNK_SIZE]),
            filled: 0,
            ended: false,
        }
    }

    /// The room to read the next bytes into.
    pub fn space(&mut self) -> (r: &mut [u8])
        requires
            old(self).wf(),
        ensures
            r@ == old(self).room(),
            0 < r@.len() <= CHUNK_SIZE,
            final(r)@.len() == r@.len() ==> {
                &&& final(self).wf()
                &&& final(self).received() == old(self).received()
                &&& final(self).room() == final(r)@
                &&& final(self).limit() == old(self).limit()
                &&& final(self).is_done() == old(self).is_done()
            },
    {
        self.chunk.tail_mut(self.filled)
    }

    /// Takes note that the last read put `n` bytes into the room; none means
    /// that the source ended.
    pub fn advance(&mut self, n: usize)
        requires
            old(self).wf(),
            !old(self).is_done(),
            n <= old(self).room().len(),
            old(self).received().len() + n <= usize::MAX,
        ensures
            final(self).wf(),
            final(self).received() == old(self).received() + old(self).room().take(n as int),
            final(self).limit() == old(self).limit(),
            final(self).is_done() == (n == 0 || over(
                in_full_chunks(final(self).received().len()),
                old(self).limit(),
            )),
            over(in_full_chunks(final(self).received().len()), old(self).limit())
                ==> final(self).received().len() == stop(old(self).limit()->0),
    {
        let ghost before = contents(self.chunks@);
        let ghost received = self.received();
        let ghost room = self.room();
        if n == 0 {
            self.ended = true;
            assert(received + room.take(0) =~= received);
            assert(in_full_chunks(received.len()) == self.len);
            return;
        }
        self.filled = self.filled + n;
        assert(received + room.take(n as int) =~= joined(before) + self.chunk@.take(
            self.filled as int,
        ));
        if self.filled == CHUNK_SIZE {
            let mut full = SecretBytes::new(vec![0u8; CHUNK_SIZE]);
            std::mem::swap(&mut full, &mut self.chunk);
            proof {
                assert(full@.take(CHUNK_SIZE as int) =~= full@);
                joined_push(before, full@);
                assert(contents(self.chunks@.push(full)) =~= before.push(full@));
            }
            self.chunks.push(full);
            self.len = self.len + CHUNK_SIZE;
            self.filled = 0;
            assert(self.chunk@.take(0) =~= seq![]);
            assert(self.received() =~= received + room.take(n as int));
            if let Some(cap) = self.cap {
                if self.len > cap {
                    self.ended = true;
                }
            }
        } else {
            assert(in_full_chunks(self.received().len()) == self.len);
        }
    }

    /// The source has been silent for too long.
    pub open spec fn gives_up(&self, timeout: Option<u64>, silent_ms: nat) -> bool {
        transfer::stalled(self.received().len() > 0, timeout, silent_ms)
    }

    /// True when the source has been silent for too long.
    pub fn is_stalled(&self, timeout: Option<u64>, silent_ms: u64) -> (r: bool)
        requires
            self.wf(),
        ensures
            r == self.gives_up(timeout, silent_ms as nat),
    {
        transfer::is_stalled(self.len > 0 || self.filled > 0, timeout, silent_ms)
    }

    /// True when there is nothing more to read.
    pub fn done(&self) -> (r: bool)
        ensures
            r == self.is_done(),
    {
        self.ended
    }

    /// How many bytes were read so far.
    pub fn count(&self) -> (r: usize)
        requires
            self.wf(),
            self.received().len() <= usize::MAX,
        ensures
            r == self.received().len(),
    {
        self.len + self.filled
    }

    /// The rope, and whether it crossed the cap.
    pub fn finish(self) -> (r: ReadOutcome)
        requires
            self.wf(),
            self.received().len() <= usize::MAX,
        ensures
            r@ == gathered(self.received(), self.limit()),
    {
        let RopeReader { mut chunks, mut len, cap, mut chunk, filled, ended } = self;
        let ghost before = contents(chunks@);
        let ghost received = self.received();
        if filled > 0 {
            chunk.truncate(filled);
            proof {
                joined_push(before, chunk@);
                assert(contents(chunks@.push(chunk)) =~= before.push(chunk@));
            }
            chunks.push(chunk);
            len = len + filled;
        } else {
            assert(received =~= joined(before));
        }
        assert(joined(contents(chunks@)) == received);
        assert forall|i: int| 0 <= i < before.len() implies #[trigger] contents(chunks@)[i]
            == before[i] by {}
        let rope = PayloadRope { chunks, len };
        match cap {
            Some(c) if len > c => ReadOutcome::Overflow(rope),
            _ => ReadOutcome::Complete(rope),
        }
    }
}

/// Once the cap is crossed, what the source still holds does not matter.
pub proof fn stopping_early_loses_nothing(source: Seq<u8>, received: Seq<u8>, cap: usize)
    requires
        received.is_prefix_of(source),
        received.len() == stop(cap),
    ensures
        gathered(received, Some(cap)) == gathered(source, Some(cap)),
{
    assert(source.take(stop(cap) as int) =~= received);
    if source.len() <= stop(cap) {
        assert(source =~= received);
    }
}

impl PayloadRope {
    /// Gathers the bytes of a source that is already in memory.
    pub fn read_to_end(source: &[u8], cap: Option<usize>) -> (r: ReadOutcome)
        ensures
            r@ == gathered(source@, cap),
    {
        let mut reader = RopeReader::new(cap);
        let mut at: usize = 0;
        assert(source@.take(0) =~= seq![]);
        while !reader.done()
            invariant
                at <= source.len(),
                reader.wf(),
                reader.received() == source@.take(at as int),
                reader.limit() == cap,
                reader.is_done() ==> at == source.len() || (cap is Some && at == stop(cap->0)),
            decreases source.len() - at, (if reader.is_done() {
                0int
            } else {
                1int
            }),
        {
            let ghost received = reader.received();
            let n = fill(source, at, reader.space());
            let ghost room = reader.room();
            assert(reader.received() + room.take(n as int) =~= source@.take(at + n));
            reader.advance(n);
            at = at + n;
        }
        proof {
            if at == source.len() {
                assert(source@.take(at as int) =~= source@);
            } else {
                stopping_early_loses_nothing(source@, reader.received(), cap->0);
            }
        }
        reader.finish()
    }
}

/// Copies what fits of the source, from `at` on, and says how much that was.
fn fill(source: &[u8], at: usize, room: &mut [u8]) -> (n: usize)
    requires
        at <= source@.len(),
    ensures
        n == (if source@.len() - at <= old(room)@.len() {
            source@.len() - at
        } else {
            old(room)@.len() as int
        }),
        final(room)@ == source@.subrange(at as int, at + n) + old(room)@.skip(n as int),
{
    let left: usize = source.len() - at;
    let n: usize = if left <= room.len() {
        left
    } else {
        room.len()
    };
    let ghost before = room@;
    for i in 0..n
        invariant
            at + n <= source.len(),
            n <= room@.len(),
            room@.len() == before.len(),
            forall|j: int| 0 <= j < i ==> room@[j] == source@[at + j],
            forall|j: int| i <= j < room@.len() ==> room@[j] == before[j],
    {
        room[i] = source[at + i];
    }
    assert(room@ =~= source@.subrange(at as int, at + n) + before.skip(n as int));
    n
}

/// What an entry list holds for each type; a later entry hides an earlier one.
pub open spec fn held(entries: Seq<(Seq<char>, Seq<u8>)>) -> Map<Seq<char>, Seq<u8>>
    decreases entries.len(),
{
    if entries.len() == 0 {
        Map::empty()
    } else {
        held(entries.drop_last()).insert(entries.last().0, entries.last().1)
    }
}

/// A snapshot of a selection: one rope per advertised MIME type, tagged with
/// the epoch of the claim it belongs to. Held in memory only, replaced on the
/// next claim, zeroed on drop.
pub struct Snapshot {
    epoch: u64,
    entries: Vec<(String, PayloadRope)>,
}

/// The epoch, and the payload of each type.
#[verifier::ext_equal]
pub struct SnapshotView {
    pub epoch: nat,
    pub data: Map<Seq<char>, Seq<u8>>,
}

/// The names and the payloads of the entries.
pub closed spec fn named(entries: Seq<(String, PayloadRope)>) -> Seq<(Seq<char>, Seq<u8>)> {
    entries.map_values(|e: (String, PayloadRope)| (e.0@, e.1@))
}

impl View for Snapshot {
    type V = SnapshotView;

    closed spec fn view(&self) -> SnapshotView {
        SnapshotView { epoch: self.epoch as nat, data: held(named(self.entries@)) }
    }
}

/// The types of the entries.
spec fn types_of(entries: Seq<(Seq<char>, Seq<u8>)>) -> Seq<Seq<char>> {
    entries.map_values(|e: (Seq<char>, Seq<u8>)| e.0)
}

/// The payload is that of some type.
pub open spec fn held_for_a_type(payload: Seq<u8>, data: Map<Seq<char>, Seq<u8>>) -> bool {
    exists|m: Seq<char>| #[trigger] data.contains_key(m) && data[m] == payload
}

/// Each payload that is held for a type stands in the list, once, and nothing
/// else does.
pub open spec fn lists_each_once(
    payloads: Seq<Seq<u8>>,
    data: Map<Seq<char>, Seq<u8>>,
) -> bool {
    exists|types: Seq<Seq<char>>| #[trigger] lists_in_order(payloads, data, types)
}

/// The list holds the payloads of these types, in their order; they are all
/// the types that there are, each once.
pub open spec fn lists_in_order(
    payloads: Seq<Seq<u8>>,
    data: Map<Seq<char>, Seq<u8>>,
    types: Seq<Seq<char>>,
) -> bool {
    &&& types.len() == payloads.len()
    &&& types.no_duplicates()
    &&& types.to_set() == data.dom()
    &&& forall|i: int| 0 <= i < types.len() ==> payloads[i] == data[#[trigger] types[i]]
}

/// Replacing the entry that counts for a type replaces its payload.
proof fn held_update(entries: Seq<(Seq<char>, Seq<u8>)>, i: int, data: Seq<u8>)
    requires
        0 <= i < entries.len(),
        forall|j: int| i < j < entries.len() ==> (#[trigger] entries[j]).0 != entries[i].0,
    ensures
        held(entries.update(i, (entries[i].0, data))) == held(entries).insert(entries[i].0, data),
    decreases entries.len(),
{
    let changed = entries.update(i, (entries[i].0, data));
    if i == entries.len() - 1 {
        assert(changed.drop_last() =~= entries.drop_last());
    } else {
        assert(changed.drop_last() =~= entries.drop_last().update(i, (entries[i].0, data)));
        held_update(entries.drop_last(), i, data);
        assert(entries[entries.len() - 1].0 != entries[i].0);
    }
    assert(held(changed) =~= held(entries).insert(entries[i].0, data));
}

/// What is held for a type is what its last entry holds.
proof fn held_at(entries: Seq<(Seq<char>, Seq<u8>)>, i: int)
    requires
        0 <= i < entries.len(),
        forall|j: int| i < j < entries.len() ==> (#[trigger] entries[j]).0 != entries[i].0,
    ensures
        held(entries).contains_key(entries[i].0),
        held(entries)[entries[i].0] == entries[i].1,
    decreases entries.len(),
{
    if i < entries.len() - 1 {
        let front = entries.drop_last();
        assert forall|j: int| i < j < front.len() implies (#[trigger] front[j]).0 != front[i].0 by {
            assert(front[j] == entries[j]);
        }
        held_at(front, i);
        assert(entries[entries.len() - 1].0 != entries[i].0);
    }
}

/// A type without an entry is not held.
proof fn held_nowhere(entries: Seq<(Seq<char>, Seq<u8>)>, name: Seq<char>)
    requires
        forall|j: int| 0 <= j < entries.len() ==> (#[trigger] entries[j]).0 != name,
    ensures
        !held(entries).contains_key(name),
    decreases entries.len(),
{
    if entries.len() > 0 {
        let front = entries.drop_last();
        assert forall|j: int| 0 <= j < front.len() implies (#[trigger] front[j]).0 != name by {
            assert(front[j] == entries[j]);
        }
        held_nowhere(front, name);
        assert(entries[entries.len() - 1].0 != name);
    }
}

/// A snapshot with what reading one type gave: a payload that came whole and
/// is not empty is held; one over the cap or empty is left out, and the type
/// degrades to being read on demand.
pub open spec fn with_outcome(
    data: Map<Seq<char>, Seq<u8>>,
    mime: Seq<char>,
    outcome: OutcomeView,
) -> Map<Seq<char>, Seq<u8>> {
    match outcome {
        OutcomeView::Complete(payload) if payload.len() > 0 => data.insert(mime, payload),
        _ => data,
    }
}

impl Snapshot {
    /// No type has two entries.
    #[verifier::type_invariant]
    spec fn consistent(self) -> bool {
        types_of(named(self.entries@)).no_duplicates()
    }

    /// A snapshot for a claim, still without payloads.
    pub fn new(epoch: u64) -> (r: Self)
        ensures
            r@ == (SnapshotView { epoch: epoch as nat, data: Map::empty() }),
    {
        let r = Snapshot { epoch, entries: Vec::new() };
        assert(named(r.entries@) =~= seq![]);
        r
    }

    /// The epoch of the claim that the snapshot belongs to.
    pub fn epoch(&self) -> (r: u64)
        ensures
            r == self@.epoch,
    {
        self.epoch
    }

    /// The entry that counts for a type.
    fn position(&self, mime: &str) -> (r: Option<usize>)
        ensures
            match r {
                Some(i) => {
                    &&& i < self.entries@.len()
                    &&& named(self.entries@)[i as int].0 == mime@
                    &&& forall|j: int|
                        i < j < self.entries@.len() ==> (#[trigger] named(self.entries@)[j]).0
                            != mime@
                },
                None => forall|j: int|
                    0 <= j < self.entries@.len() ==> (#[trigger] named(self.entries@)[j]).0
                        != mime@,
            },
    {
        let mut i: usize = self.entries.len();
        while i > 0
            invariant
                i <= self.entries@.len(),
                forall|j: int|
                    i <= j < self.entries@.len() ==> (#[trigger] named(self.entries@)[j]).0
                        != mime@,
            decreases i,
        {
            i = i - 1;
            if text::same(self.entries[i].0.as_str(), mime) {
                return Some(i);
            }
        }
        None
    }

    /// True when the payload of a type is held.
    pub fn has(&self, mime: &str) -> (r: bool)
        ensures
            r == self@.data.contains_key(mime@),
    {
        match self.position(mime) {
            Some(i) => {
                proof {
                    held_at(named(self.entries@), i as int);
                }
                true
            },
            None => {
                proof {
                    held_nowhere(named(self.entries@), mime@);
                }
                false
            },
        }
    }

    /// The payload of a type.
    pub fn get(&self, mime: &str) -> (r: Option<&PayloadRope>)
        ensures
            r matches Some(rope) ==> self@.data.contains_key(mime@) && rope@ == self@.data[mime@],
            r is None ==> !self@.data.contains_key(mime@),
    {
        match self.position(mime) {
            Some(i) => {
                proof {
                    held_at(named(self.entries@), i as int);
                }
                Some(&self.entries[i].1)
            },
            None => {
                proof {
                    held_nowhere(named(self.entries@), mime@);
                }
                None
            },
        }
    }

    /// All payloads held, one per type, in no particular order.
    pub fn ropes(&self) -> (r: Vec<&PayloadRope>)
        ensures
            lists_each_once(r@.map_values(|rope: &PayloadRope| rope@), self@.data),
            r@.len() == self@.data.dom().len(),
            forall|i: int| 0 <= i < r@.len() ==> held_for_a_type((#[trigger] r@[i])@, self@.data),
            forall|m: Seq<char>| #[trigger]
                self@.data.contains_key(m) ==> exists|i: int|
                    0 <= i < r@.len() && (#[trigger] r@[i])@ == self@.data[m],
    {
        proof {
            use_type_invariant(self);
        }
        let mut out: Vec<&PayloadRope> = Vec::new();
        let ghost entries = named(self.entries@);
        for i in 0..self.entries.len()
            invariant
                entries == named(self.entries@),
                out@.len() == i,
                forall|j: int| 0 <= j < i ==> (#[trigger] out@[j])@ == entries[j].1,
        {
            out.push(&self.entries[i].1);
        }
        proof {
            let data = self@.data;
            let types = types_of(entries);
            let payloads = out@.map_values(|rope: &PayloadRope| rope@);
            assert forall|i: int| 0 <= i < types.len() implies data.contains_key(
                #[trigger] types[i],
            ) && payloads[i] == data[types[i]] && out@[i]@ == data[types[i]] by {
                assert forall|j: int| i < j < entries.len() implies (#[trigger] entries[j]).0
                    != entries[i].0 by {
                    assert(types[j] != types[i]);
                }
                held_at(entries, i);
                assert(out@[i]@ == entries[i].1);
            }
            assert forall|m: Seq<char>| #[trigger] data.contains_key(m) implies types.contains(m)
                && exists|i: int| 0 <= i < out@.len() && (#[trigger] out@[i])@ == data[m] by {
                let i = held_by(entries, m);
                assert(types[i] == m);
                assert(out@[i]@ == data[m]);
            }
            assert(types.to_set() =~= data.dom());
            types.unique_seq_to_set();
            assert(lists_in_order(payloads, data, types));
            assert forall|i: int| 0 <= i < out@.len() implies held_for_a_type(
                (#[trigger] out@[i])@,
                data,
            ) by {
                assert(data.contains_key(types[i]));
            }
        }
        out
    }

    /// Takes in what reading one type gave.
    pub fn collect(&mut self, mime: String, outcome: ReadOutcome)
        ensures
            final(self)@.epoch == old(self)@.epoch,
            final(self)@.data == with_outcome(old(self)@.data, mime@, outcome@),
    {
        if let ReadOutcome::Complete(rope) = outcome {
            if !rope.is_empty() {
                proof {
                    use_type_invariant(&*self);
                }
                let ghost before = named(self.entries@);
                let place = self.position(mime.as_str());
                let mut entries: Vec<(String, PayloadRope)> = Vec::new();
                assert(types_of(named(entries@)) =~= seq![]);
                std::mem::swap(&mut entries, &mut self.entries);
                match place {
                    Some(i) => {
                        proof {
                            held_update(before, i as int, rope@);
                            assert(named(entries@.update(i as int, (mime, rope)))
                                =~= before.update(i as int, (mime@, rope@)));
                        }
                        entries.set(i, (mime, rope));
                        assert(types_of(named(entries@)) =~= types_of(before));
                    },
                    None => {
                        assert(named(entries@.push((mime, rope))) =~= before.push(
                            (mime@, rope@),
                        ));
                        assert(before.push((mime@, rope@)).drop_last() =~= before);
                        let ghost name = mime@;
                        entries.push((mime, rope));
                        proof {
                            let types = types_of(before);
                            assert(types_of(named(entries@)) =~= types.push(name));
                            assert forall|k: int| 0 <= k < types.len() implies #[trigger] types[k]
                                != name by {
                                assert(before[k].0 != name);
                            }
                        }
                    },
                }
                self.entries = entries;
            }
        }
    }
}

/// A type that is held is held by an entry.
proof fn held_by(entries: Seq<(Seq<char>, Seq<u8>)>, name: Seq<char>) -> (i: int)
    requires
        held(entries).contains_key(name),
    ensures
        0 <= i < entries.len(),
        entries[i].0 == name,
        entries[i].1 == held(entries)[name],
    decreases entries.len(),
{
    if entries.last().0 == name {
        entries.len() - 1
    } else {
        held_by(entries.drop_last(), name)
    }
}

/// Reads one type's payload out of a shared snapshot, piece by piece, so that
/// serving from memory is the same as serving from a pipe.
pub struct SnapshotReader {
    snapshot: Arc<Snapshot>,
    entry: Option<usize>,
    chunk: usize,
    offset: usize,
}

/// The parts from a place in a rope on, joined.
spec fn rest(parts: Seq<Seq<u8>>, chunk: int, offset: int) -> Seq<u8> {
    if chunk >= parts.len() {
        seq![]
    } else {
        joined(parts.skip(chunk)).skip(offset)
    }
}

/// How much of the part at a place in a rope is left; once a part is used up,
/// the next one counts.
spec fn left_in_part(parts: Seq<Seq<u8>>, chunk: int, offset: int) -> int {
    if chunk >= parts.len() {
        0
    } else if offset < parts[chunk].len() {
        parts[chunk].len() - offset
    } else if chunk + 1 < parts.len() {
        parts[chunk + 1].len() as int
    } else {
        0
    }
}

/// How much of what is left of a payload lies before the end of the chunk that
/// it starts in.
pub open spec fn to_chunk_end(total: nat, left: nat) -> int {
    let room = CHUNK_SIZE - (total - left) % (CHUNK_SIZE as int);
    if left <= room {
        left as int
    } else {
        room
    }
}

/// What is left of the part at a place in a rope reaches to the end of a chunk.
proof fn parts_end_with_chunks(parts: Seq<Seq<u8>>, chunk: int, offset: int)
    requires
        cut_in_chunks(parts),
        0 <= chunk,
        chunk < parts.len() ==> 0 <= offset <= parts[chunk].len(),
    ensures
        left_in_part(parts, chunk, offset) == to_chunk_end(
            joined(parts).len(),
            rest(parts, chunk, offset).len(),
        ),
{
    if chunk < parts.len() {
        let size = CHUNK_SIZE as int;
        let total = joined(parts).len();
        let left = rest(parts, chunk, offset).len();
        assert(parts =~= parts.take(chunk) + parts.skip(chunk));
        joined_splits(parts.take(chunk), parts.skip(chunk));
        full_parts_len(parts.take(chunk));
        joined_from(parts, chunk);
        assert(total - left == chunk * size + offset);
        if offset < parts[chunk].len() {
            vstd::arithmetic::div_mod::lemma_fundamental_div_mod_converse(
                total - left,
                size,
                chunk,
                offset,
            );
            if chunk == parts.len() - 1 {
                assert(parts.skip(chunk + 1) =~= seq![]);
            }
        } else if chunk + 1 < parts.len() {
            assert(total - left == (chunk + 1) * size + 0) by (nonlinear_arith)
                requires
                    total - left == chunk * size + offset,
                    offset == size,
            ;
            vstd::arithmetic::div_mod::lemma_fundamental_div_mod_converse(
                total - left,
                size,
                chunk + 1,
                0,
            );
            joined_from(parts, chunk + 1);
            if chunk + 1 == parts.len() - 1 {
                assert(parts.skip(chunk + 2) =~= seq![]);
            }
        } else {
            assert(parts.skip(chunk + 1) =~= seq![]);
        }
    }
}

impl SnapshotReader {
    /// The parts of the payload that is read.
    closed spec fn source(&self) -> Seq<Seq<u8>> {
        match self.entry {
            Some(i) => self.snapshot.entries@[i as int].1.parts(),
            None => seq![],
        }
    }

    /// What is still to be read.
    pub closed spec fn remaining(&self) -> Seq<u8> {
        rest(self.source(), self.chunk as int, self.offset as int)
    }

    /// All of the payload.
    pub closed spec fn payload(&self) -> Seq<u8> {
        joined(self.source())
    }

    /// The reader stands at a place in the payload.
    pub closed spec fn wf(&self) -> bool {
        &&& self.entry matches Some(i) ==> i < self.snapshot.entries@.len()
        &&& self.chunk < self.source().len() ==> self.offset <= self.source()[self.chunk as int].len()
        &&& self.chunk <= self.source().len()
    }

    /// Starts to read the payload of a type.
    pub fn new(snapshot: Arc<Snapshot>, mime: String) -> (r: Self)
        ensures
            r.wf(),
            r.payload() == (if snapshot@.data.contains_key(mime@) {
                snapshot@.data[mime@]
            } else {
                seq![]
            }),
            r.remaining() == r.payload(),
    {
        let entry = snapshot.position(mime.as_str());
        let ghost named = named(snapshot.entries@);
        match entry {
            Some(i) => {
                let rope = &snapshot.entries[i].1;
                proof {
                    use_type_invariant(rope);
                    held_at(named, i as int);
                    let parts = rope.parts();
                    assert(parts.skip(0) =~= parts);
                    assert(rest(parts, 0, 0) =~= joined(parts));
                }
            },
            None => {
                proof {
                    held_nowhere(named, mime@);
                }
            },
        }
        SnapshotReader { snapshot, entry, chunk: 0, offset: 0 }
    }

    /// Copies the next bytes into the buffer, up to the end of a chunk, and says
    /// how many there were: none only at the end, or where the buffer has no
    /// room.
    pub fn read(&mut self, buf: &mut [u8]) -> (n: usize)
        requires
            old(self).wf(),
        ensures
            final(self).wf(),
            final(self).payload() == old(self).payload(),
            n == ({
                let ahead = to_chunk_end(old(self).payload().len(), old(self).remaining().len());
                if ahead <= old(buf)@.len() {
                    ahead
                } else {
                    old(buf)@.len() as int
                }
            }),
            n == 0 ==> old(self).remaining().len() == 0 || old(buf)@.len() == 0,
            n <= old(self).remaining().len(),
            final(buf)@ == old(self).remaining().take(n as int) + old(buf)@.skip(n as int),
            final(self).remaining() == old(self).remaining().skip(n as int),
    {
        let ghost remaining = self.remaining();
        let ghost parts = self.source();
        let ghost room = buf@;
        let i = match self.entry {
            Some(i) => i,
            None => {
                assert(remaining.take(0) + room.skip(0) =~= room);
                return 0;
            },
        };
        let rope = &self.snapshot.entries[i].1;
        proof {
            use_type_invariant(rope);
            assert(parts =~= contents(rope.chunks@));
            parts_end_with_chunks(parts, self.chunk as int, self.offset as int);
        }
        if self.chunk < rope.chunks.len() && self.offset >= rope.chunks[self.chunk].len() {
            proof {
                joined_from(parts, self.chunk as int);
                if self.chunk + 1 < parts.len() {
                    assert(joined(parts.skip(self.chunk as int)).skip(self.offset as int) =~= joined(
                        parts.skip(self.chunk + 1),
                    ).skip(0));
                } else {
                    assert(parts.skip(self.chunk + 1) =~= seq![]);
                    assert(joined(parts.skip(self.chunk + 1)) =~= seq![]);
                    assert(remaining =~= seq![]);
                }
            }
            self.chunk = self.chunk + 1;
            self.offset = 0;
        }
        if self.chunk >= rope.chunks.len() {
            assert(remaining.take(0) + room.skip(0) =~= room);
            return 0;
        }
        let chunk = rope.chunks[self.chunk].as_slice();
        proof {
            joined_from(parts, self.chunk as int);
            assert(chunk@ == parts[self.chunk as int]);
        }
        let n = fill(chunk, self.offset, buf);
        proof {
            let off = self.offset as int;
            let tail = joined(parts.skip(self.chunk + 1));
            assert(remaining == (chunk@ + tail).skip(off));
            assert(remaining.take(n as int) =~= chunk@.subrange(off, off + n));
            assert(remaining.skip(n as int) =~= (chunk@ + tail).skip(off + n));
        }
        self.offset = self.offset + n;
        n
    }
}

/// A source within the cap is held byte for byte; one over the cap, or one
/// that gave nothing, leaves the snapshot as it was.
pub proof fn snapshot_holds_what_was_read(
    data: Map<Seq<char>, Seq<u8>>,
    mime: Seq<char>,
    source: Seq<u8>,
    cap: Option<usize>,
)
    ensures
        source.len() > 0 && !over(source.len(), cap) ==> with_outcome(
            data,
            mime,
            gathered(source, cap),
        ) == data.insert(mime, source),
        source.len() == 0 || over(source.len(), cap) ==> with_outcome(
            data,
            mime,
            gathered(source, cap),
        ) == data,
{
}

/// What a row of reads hands out, where each takes that many bytes off what
/// remains.
pub open spec fn reads(remaining: Seq<u8>, sizes: Seq<nat>) -> Seq<Seq<u8>>
    decreases sizes.len(),
{
    if sizes.len() == 0 {
        seq![]
    } else {
        seq![remaining.take(sizes[0] as int)] + reads(
            remaining.skip(sizes[0] as int),
            sizes.drop_first(),
        )
    }
}

/// What remains after a row of reads.
pub open spec fn unread(remaining: Seq<u8>, sizes: Seq<nat>) -> Seq<u8>
    decreases sizes.len(),
{
    if sizes.len() == 0 {
        remaining
    } else {
        unread(remaining.skip(sizes[0] as int), sizes.drop_first())
    }
}

/// No read takes more than there is.
pub open spec fn fits(remaining: Seq<u8>, sizes: Seq<nat>) -> bool
    decreases sizes.len(),
{
    sizes.len() > 0 ==> sizes[0] <= remaining.len() && fits(
        remaining.skip(sizes[0] as int),
        sizes.drop_first(),
    )
}

/// However the reads are cut, together with what is left they make up the
/// payload: nothing is lost, repeated or reordered.
pub proof fn reads_make_the_whole(payload: Seq<u8>, sizes: Seq<nat>)
    requires
        fits(payload, sizes),
    ensures
        joined(reads(payload, sizes)) + unread(payload, sizes) == payload,
    decreases sizes.len(),
{
    if sizes.len() == 0 {
        assert(joined(reads(payload, sizes)) + payload =~= payload);
    } else {
        let n = sizes[0] as int;
        let first = seq![payload.take(n)];
        let others = reads(payload.skip(n), sizes.drop_first());
        reads_make_the_whole(payload.skip(n), sizes.drop_first());
        joined_splits(first, others);
        assert(first.drop_last() =~= seq![]);
        assert(joined(first.drop_last()) =~= seq![]);
        assert(joined(first) =~= payload.take(n));
        assert(payload =~= payload.take(n) + payload.skip(n));
        assert(joined(reads(payload, sizes)) + unread(payload, sizes) =~= joined(first) + (joined(
            others,
        ) + unread(payload.skip(n), sizes.drop_first())));
    }
}

/// Parts are joined in order, each once.
pub proof fn parts_are_joined_in_order(parts: Seq<Seq<u8>>, more: Seq<u8>)
    ensures
        joined(Seq::empty()).len() == 0,
        joined(seq![more]) == more,
        joined(parts.push(more)) == joined(parts) + more,
        joined(seq![more] + parts) == more + joined(parts),
{
    let one = seq![more];
    assert(one.drop_last() =~= seq![]);
    assert(joined(one.drop_last()) =~= seq![]);
    assert(joined(one) =~= more);
    joined_push(parts, more);
    joined_splits(one, parts);
}

/// Reading past the cap stops with the first full chunk that lies beyond it.
pub proof fn reading_stops_right_behind_the_cap(cap: usize, n: nat)
    ensures
        cap < stop(cap) <= cap + 65536,
        stop(cap) % 65536 == 0,
        in_full_chunks(n) % 65536 == 0,
        in_full_chunks(n) <= n < in_full_chunks(n) + 65536,
        over(n, Some(cap)) <==> n > cap,
        !over(n, None),
{
    vstd::arithmetic::div_mod::lemma_fundamental_div_mod(cap as int, CHUNK_SIZE as int);
    vstd::arithmetic::div_mod::lemma_fundamental_div_mod(n as int, CHUNK_SIZE as int);
    let chunks = (cap / CHUNK_SIZE) as int + 1;
    vstd::arithmetic::div_mod::lemma_mod_multiples_basic(chunks, 65536);
    let whole = n as int / 65536;
    assert(in_full_chunks(n) == 65536 * whole);
    vstd::arithmetic::div_mod::lemma_mod_multiples_basic(whole, 65536);
    assert(65536 * whole == whole * 65536);
    assert(stop(cap) == chunks * 65536);
}

/// A source that is read to its end comes out whole and in order if the cap
/// lets it; otherwise what comes out is how it starts, more than the cap and a
/// chunk more at most, and is marked as cut.
pub proof fn sources_are_read_as_they_are(source: &[u8], cap: Option<usize>, r: ReadOutcome)
    requires
        call_ensures(PayloadRope::read_to_end, (source, cap), r),
    ensures
        cap is None || source@.len() <= cap->0 ==> (r matches ReadOutcome::Complete(rope) && rope@
            == source@),
        cap is Some && source@.len() > cap->0 ==> (r matches ReadOutcome::Overflow(rope)
            && rope@.is_prefix_of(source@) && cap->0 < rope@.len() <= cap->0 + 65536 && (rope@
            == source@ || rope@.len() % 65536 == 0)),
{
    if let Some(c) = cap {
        reading_stops_right_behind_the_cap(c, 0);
        memory_is_bounded(source@, c);
        assert(r@ == gathered(source@, cap));
    }
}

/// What a reader was handed comes out as it was handed in, under the same cap.
pub proof fn readers_give_what_they_received(reader: RopeReader, r: ReadOutcome)
    requires
        call_ensures(RopeReader::finish, (reader,), r),
        reader.limit() is None || reader.received().len() <= reader.limit()->0,
    ensures
        r matches ReadOutcome::Complete(rope) && rope@ == reader.received(),
{
}

/// A reader takes in what was written to its space, behind what it had, and is
/// done when nothing more came or the cap is passed by full chunks.
pub proof fn readers_take_in_what_came(reader: &mut RopeReader, n: usize)
    requires
        call_ensures(RopeReader::advance, (reader, n), ()),
    ensures
        final(reader).received() == old(reader).received() + old(reader).room().take(n as int),
        final(reader).limit() == old(reader).limit(),
        n == 0 ==> final(reader).is_done(),
        n > 0 && old(reader).limit() is None ==> !final(reader).is_done(),
        n > 0 && old(reader).limit() is Some && final(reader).received().len() <= old(
            reader,
        ).limit()->0 ==> !final(reader).is_done(),
        old(reader).limit() is Some && final(reader).received().len() >= old(reader).limit()->0
            + 65536 ==> final(reader).is_done(),
{
    let n = final(reader).received().len();
    vstd::arithmetic::div_mod::lemma_fundamental_div_mod(n as int, CHUNK_SIZE as int);
    if let Some(cap) = old(reader).limit() {
        reading_stops_right_behind_the_cap(cap, n);
    }
}

/// A new snapshot holds nothing. A payload that was read whole, and is not
/// empty, is found under its type from then on; what was cut, or empty, is
/// not kept, and the other types are found as before.
pub proof fn collected_payloads_are_found(
    epoch: u64,
    made: Snapshot,
    snapshot: &mut Snapshot,
    mime: String,
    outcome: ReadOutcome,
    after: Snapshot,
    name: &str,
    found: Option<&PayloadRope>,
)
    requires
        call_ensures(Snapshot::new, (epoch,), made),
        call_ensures(Snapshot::collect, (snapshot, mime, outcome), ()),
        after@ == final(snapshot)@,
        call_ensures(Snapshot::get, (&after, name), found),
    ensures
        made@.epoch == epoch,
        forall|m: Seq<char>| !#[trigger] made@.data.contains_key(m),
        after@.epoch == old(snapshot)@.epoch,
        name@ == mime@ ==> {
            &&& outcome@ is Complete && outcome@->Complete_0.len() > 0 ==> found is Some
                && found->0@ == outcome@->Complete_0
            &&& outcome@ is Overflow || outcome@->Complete_0.len() == 0 ==> (found is Some <==> old(
                snapshot,
            )@.data.contains_key(name@)) && (found is Some ==> found->0@ == old(
                snapshot,
            )@.data[name@])
        },
        name@ != mime@ ==> (found is Some <==> old(snapshot)@.data.contains_key(name@)) && (
        found is Some ==> found->0@ == old(snapshot)@.data[name@]),
{
}

/// Whether a type is held is said as it is.
pub proof fn held_types_are_known(snapshot: Snapshot, name: &str, has_it: bool, epoch: u64)
    requires
        call_ensures(Snapshot::has, (&snapshot, name), has_it),
        call_ensures(Snapshot::epoch, (&snapshot,), epoch),
    ensures
        has_it <==> snapshot@.data.contains_key(name@),
        epoch == snapshot@.epoch,
{
}

/// The snapshot of a list of entries: a later entry takes the place of an
/// earlier one of its type.
pub proof fn later_entries_count(
    entries: Seq<(Seq<char>, Seq<u8>)>,
    name: Seq<char>,
    data: Seq<u8>,
)
    ensures
        held(entries.push((name, data))) == held(entries).insert(name, data),
        held(Seq::empty()) == Map::<Seq<char>, Seq<u8>>::empty(),
{
    assert(entries.push((name, data)).drop_last() =~= entries);
}

/// A reader of a snapshot gives the payload of its type from the start: each
/// read gives the next bytes, in order, and none only at the end or where there
/// is no room.
pub proof fn snapshots_are_read_in_order(
    snapshot: Arc<Snapshot>,
    mime: String,
    made: SnapshotReader,
    reader: &mut SnapshotReader,
    buf: &mut [u8],
    n: usize,
)
    requires
        call_ensures(SnapshotReader::new, (snapshot, mime), made),
        call_ensures(SnapshotReader::read, (reader, buf), n),
        old(buf)@.len() > 0,
    ensures
        snapshot@.data.contains_key(mime@) ==> made.remaining() == snapshot@.data[mime@],
        !snapshot@.data.contains_key(mime@) ==> made.remaining().len() == 0,
        n <= old(buf)@.len(),
        final(buf)@.len() == old(buf)@.len(),
        final(buf)@.take(n as int) + final(reader).remaining() == old(reader).remaining(),
        n == 0 ==> old(reader).remaining().len() == 0,
        final(reader).payload() == old(reader).payload(),
{
    let all = old(reader).remaining();
    assert(final(buf)@.take(n as int) =~= all.take(n as int));
    assert(all.take(n as int) + all.skip(n as int) =~= all);
}

/// One read goes to the end of its chunk, or of the payload, and not beyond.
pub proof fn reads_go_to_the_end_of_a_chunk(total: nat, left: nat)
    requires
        left <= total,
    ensures
        0 <= to_chunk_end(total, left) <= left,
        to_chunk_end(total, left) <= 65536,
        left > 0 ==> to_chunk_end(total, left) > 0,
        to_chunk_end(total, left) == left || (total - left + to_chunk_end(total, left)) % 65536
            == 0,
        left <= 65536 - (total - left) % 65536 ==> to_chunk_end(total, left) == left,
{
    let done = total - left;
    vstd::arithmetic::div_mod::lemma_fundamental_div_mod(done, 65536);
    let whole = done / 65536 + 1;
    vstd::arithmetic::div_mod::lemma_mod_multiples_basic(whole, 65536);
    assert(done + (65536 - done % 65536) == whole * 65536);
}

/// A rope holds its bytes as they are, in one piece or in chunks.
pub proof fn ropes_hold_their_bytes(
    rope: PayloadRope,
    whole: SecretBytes,
    parts: Vec<&[u8]>,
    len: usize,
    empty: bool,
    i: int,
)
    requires
        call_ensures(PayloadRope::to_contiguous, (&rope,), whole),
        call_ensures(PayloadRope::chunks, (&rope,), parts),
        call_ensures(PayloadRope::len, (&rope,), len),
        call_ensures(PayloadRope::is_empty, (&rope,), empty),
    ensures
        whole@ == rope@,
        joined(Seq::new(parts@.len(), |k: int| parts@[k]@)) == rope@,
        0 <= i < parts@.len() ==> 0 < parts@[i]@.len() <= 65536,
        0 <= i < parts@.len() - 1 ==> parts@[i]@.len() == 65536,
        len == rope@.len(),
        empty <==> rope@.len() == 0,
{
    assert(parts@.map_values(|c: &[u8]| c@) =~= Seq::new(parts@.len(), |k: int| parts@[k]@));
}

} // verus!
