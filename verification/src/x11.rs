//! The X11 side in plain values: atoms, selection requests and replies, and
//! what is read out of window properties.

use vstd::prelude::*;

use crate::text;
use crate::SelKind;

verus! {

/// No window, no atom.
pub const NONE: u32 = 0;

/// The predefined atom `PRIMARY`.
pub const PRIMARY: u32 = 1;

/// The predefined atom `ATOM`.
pub const ATOM: u32 = 4;

/// The predefined atom `INTEGER`.
pub const INTEGER: u32 = 19;

/// The predefined atom `STRING`.
pub const STRING: u32 = 31;

/// Room kept below the maximum request size for the request's header.
pub const REQUEST_HEADROOM: usize = 1024;

/// The atoms that the bridge interns when it connects.
#[derive(Debug, Clone, Copy, PartialEq, Eq, Structural)]
pub struct Atoms {
    pub clipboard: u32,
    pub targets: u32,
    pub timestamp: u32,
    pub multiple: u32,
    pub incr: u32,
    pub utf8_string: u32,
    pub text: u32,
    pub clipferry: u32,
    pub clipferry_targets: u32,
    pub clipferry_targets_primary: u32,
}

/// A request for the selection's content.
#[derive(Debug, Clone, Copy, PartialEq, Eq, Structural)]
pub struct SelectionRequest {
    pub time: u32,
    pub requestor: u32,
    pub selection: u32,
    pub target: u32,
    pub property: u32,
}

/// The answer to a request: the property that holds the content, or none for
/// a refusal.
#[derive(Debug, Clone, Copy, PartialEq, Eq, Structural)]
pub struct SelectionNotify {
    pub time: u32,
    pub requestor: u32,
    pub selection: u32,
    pub target: u32,
    pub property: u32,
}

/// A property of a window changed.
#[derive(Debug, Clone, Copy, PartialEq, Eq, Structural)]
pub struct PropertyNotify {
    pub window: u32,
    pub atom: u32,
    pub time: u32,
    pub deleted: bool,
}

/// The largest payload for one property write.
pub open spec fn payload_limit(max_request_bytes: nat) -> nat {
    if max_request_bytes <= REQUEST_HEADROOM {
        0
    } else {
        (max_request_bytes - REQUEST_HEADROOM) as nat
    }
}

/// The bridge's X11 connection: its window, its atoms and its limits.
#[derive(Debug, Clone, Copy)]
pub struct X11 {
    pub win: u32,
    pub atoms: Atoms,
    /// The largest payload that fits one property write.
    pub max_payload: usize,
    pub xfixes_version: (u32, u32),
}

impl X11 {
    /// The connection as it was set up.
    pub fn new(
        win: u32,
        atoms: Atoms,
        max_request_bytes: usize,
        xfixes_version: (u32, u32),
    ) -> (r: Self)
        ensures
            r.win == win,
            r.atoms == atoms,
            r.max_payload == payload_limit(max_request_bytes as nat),
            r.xfixes_version == xfixes_version,
    {
        let max_payload: usize = if max_request_bytes <= REQUEST_HEADROOM {
            0
        } else {
            max_request_bytes - REQUEST_HEADROOM
        };
        X11 { win, atoms, max_payload, xfixes_version }
    }

    /// The atom of a selection.
    pub open spec fn atom_of(&self, kind: SelKind) -> u32 {
        match kind {
            SelKind::Clipboard => self.atoms.clipboard,
            SelKind::Primary => PRIMARY,
        }
    }

    /// The atom of a selection.
    pub fn selection_atom(&self, kind: SelKind) -> (r: u32)
        ensures
            r == self.atom_of(kind),
    {
        match kind {
            SelKind::Clipboard => self.atoms.clipboard,
            SelKind::Primary => PRIMARY,
        }
    }

    /// The property that takes a selection's targets.
    pub fn targets_property(&self, kind: SelKind) -> (r: u32)
        ensures
            r == (match kind {
                SelKind::Clipboard => self.atoms.clipferry_targets,
                SelKind::Primary => self.atoms.clipferry_targets_primary,
            }),
    {
        match kind {
            SelKind::Clipboard => self.atoms.clipferry_targets,
            SelKind::Primary => self.atoms.clipferry_targets_primary,
        }
    }

    /// The server time that a property change carries, where it answers the
    /// bridge's own zero-length append. Any other change is somebody else's.
    pub fn server_time(&self, event: &PropertyNotify) -> (r: Option<u32>)
        ensures
            r == (if event.window == self.win && event.atom == self.atoms.clipferry {
                Some(event.time)
            } else {
                None
            }),
    {
        if event.window == self.win && event.atom == self.atoms.clipferry {
            Some(event.time)
        } else {
            None
        }
    }
}

/// What to do while an answer of the X server is awaited.
#[derive(Debug, Clone, Copy, PartialEq, Eq, Structural)]
pub enum Wait {
    /// Sleep for this many milliseconds and look again.
    Sleep(u64),
    /// The answer does not come any more.
    GiveUp,
}

/// How long an answer of the X server, or of the owner of a selection, is
/// awaited, in milliseconds. A local peer that says nothing for that long is
/// dead or wedged.
pub const ANSWER_LIMIT_MS: u64 = 2000;

/// Decides whether to wait on for an answer, after this many milliseconds.
pub fn wait(elapsed_ms: u64) -> (r: Wait)
    ensures
        r == (if elapsed_ms > ANSWER_LIMIT_MS {
            Wait::GiveUp
        } else {
            Wait::Sleep(1)
        }),
{
    if elapsed_ms > ANSWER_LIMIT_MS {
        Wait::GiveUp
    } else {
        Wait::Sleep(1)
    }
}

/// Waits between attempts to connect: half a second at first, twice as long
/// each time, five seconds at most. Only the first failure is logged.
pub struct Backoff {
    delay_ms: u64,
    logged: bool,
}

/// The wait after a number of failures before it, in milliseconds.
pub open spec fn backoff_ms(failures: nat) -> nat
    decreases failures,
{
    if failures == 0 {
        500
    } else {
        let doubled = backoff_ms((failures - 1) as nat) * 2;
        if doubled < 5000 {
            doubled
        } else {
            5000
        }
    }
}

impl Backoff {
    /// The number of failures so far is one that this state stands for.
    pub closed spec fn counts(&self, failures: nat) -> bool {
        self.delay_ms == backoff_ms(failures) && self.logged == (failures > 0)
    }

    /// Before the first attempt.
    pub fn new() -> (r: Self)
        ensures
            r.counts(0),
    {
        Backoff { delay_ms: 500, logged: false }
    }

    /// An attempt failed: how long to wait before the next one, in
    /// milliseconds, and whether to log the failure.
    pub fn failed(&mut self) -> (r: (u64, bool))
        ensures
            forall|failures: nat| #[trigger]
                old(self).counts(failures) ==> {
                    &&& final(self).counts(failures + 1)
                    &&& r.0 == backoff_ms(failures)
                    &&& r.1 == (failures == 0)
                },
    {
        let delay = self.delay_ms;
        let log = !self.logged;
        self.logged = true;
        if delay < 2500 {
            self.delay_ms = delay * 2;
        } else {
            self.delay_ms = 5000;
        }
        (delay, log)
    }
}

/// The wait never shrinks and never exceeds five seconds.
pub proof fn backoff_is_bounded(failures: nat)
    ensures
        500 <= backoff_ms(failures) <= backoff_ms(failures + 1) <= 5000,
    decreases failures,
{
    if failures > 0 {
        backoff_is_bounded((failures - 1) as nat);
    }
}

/// The four bytes at `at` as a number, in one byte order or the other.
pub open spec fn word(bytes: Seq<u8>, at: int, little: bool) -> int {
    if little {
        bytes[at] + 256 * bytes[at + 1] + 65536 * bytes[at + 2] + 16777216 * bytes[at + 3]
    } else {
        bytes[at + 3] + 256 * bytes[at + 2] + 65536 * bytes[at + 1] + 16777216 * bytes[at]
    }
}

/// The values are the bytes, taken four at a time; a remainder is dropped.
pub open spec fn are_words(values: Seq<u32>, bytes: Seq<u8>, little: bool) -> bool {
    &&& values.len() == bytes.len() / 4
    &&& forall|i: int|
        0 <= i < values.len() ==> #[trigger] values[i] == word(bytes, 4 * i, little)
}

/// `x11rb`'s `GetPropertyReply::value32`: the 32-bit values of a property,
/// where its format is 32. They are read in the byte order of the machine,
/// which is the same for all of them.
#[verifier::external_body]
fn value32(format: u8, value: Vec<u8>) -> (r: Option<Vec<u32>>)
    ensures
        r is Some == (format == 32),
        r matches Some(values) ==> are_words(values@, value@, true) || are_words(
            values@,
            value@,
            false,
        ),
{
    let reply = x11rb::protocol::xproto::GetPropertyReply {
        format,
        value,
        ..Default::default()
    };
    let values = reply.value32();
    values.map(Iterator::collect)
}

/// The target atoms of a `TARGETS` property: none where the property does not
/// hold 32-bit values.
pub fn target_atoms(format: u8, value: Vec<u8>) -> (r: Vec<u32>)
    ensures
        format == 32 ==> are_words(r@, value@, true) || are_words(r@, value@, false),
        format != 32 ==> r@.len() == 0,
{
    match value32(format, value) {
        Some(values) => values,
        None => Vec::new(),
    }
}

/// The first value, where there is one and it is a window.
pub open spec fn first_window(values: Option<Seq<u32>>) -> Option<u32> {
    match values {
        Some(v) if v.len() > 0 && v[0] != NONE => Some(v[0]),
        _ => None,
    }
}

/// The window among the values of a window manager's check property.
pub fn check_window(values: &Option<Vec<u32>>) -> (r: Option<u32>)
    ensures
        r == first_window(
            match *values {
                Some(v) => Some(v@),
                None => None,
            },
        ),
{
    match values {
        Some(v) => if v.len() > 0 && v[0] != NONE {
            Some(v[0])
        } else {
            None
        },
        None => None,
    }
}

/// The window that a number names.
pub open spec fn window_named(number: int) -> Option<u32> {
    if number == NONE {
        None
    } else {
        Some(number as u32)
    }
}

/// The window manager's check window, out of the property that names it. The
/// claims of another bridge come from that window. The property is read in
/// the byte order of the machine.
pub fn wm_check_window(format: u8, value: Vec<u8>) -> (r: Option<u32>)
    ensures
        format != 32 || value@.len() < 4 ==> r is None,
        format == 32 && value@.len() >= 4 ==> r == window_named(word(value@, 0, true)) || r
            == window_named(word(value@, 0, false)),
{
    let values = value32(format, value);
    proof {
        if values is Some && values->0@.len() > 0 {
            assert(values->0@[0] == word(value@, 0, true) || values->0@[0] == word(
                value@,
                0,
                false,
            ));
        }
    }
    check_window(&values)
}

/// The last part of a property of NUL-separated parts that is not empty.
pub open spec fn is_last_part(value: Seq<u8>, from: int, to: int) -> bool {
    &&& 0 <= from < to <= value.len()
    &&& forall|i: int| to <= i < value.len() ==> #[trigger] value[i] == 0
    &&& forall|i: int| from <= i < to ==> #[trigger] value[i] != 0
    &&& from == 0 || value[from - 1] == 0
}

/// The class of an X11 client, out of its `WM_CLASS` (instance, NUL, class,
/// NUL): the last part that is not empty.
pub fn owner_class(value: &[u8]) -> (r: Option<String>)
    ensures
        r matches Some(class) ==> exists|from: int, to: int| #[trigger]
            is_last_part(value@, from, to) && class@ == text::lossy_text(
                value@.subrange(from, to),
            ),
        r is None ==> forall|i: int| 0 <= i < value@.len() ==> #[trigger] value@[i] == 0,
{
    let mut to: usize = value.len();
    while to > 0 && value[to - 1] == 0
        invariant
            to <= value.len(),
            forall|i: int| to <= i < value@.len() ==> #[trigger] value@[i] == 0,
        decreases to,
    {
        to = to - 1;
    }
    if to == 0 {
        return None;
    }
    let mut from: usize = to - 1;
    while from > 0 && value[from - 1] != 0
        invariant
            from < to <= value.len(),
            forall|i: int| from <= i < to ==> #[trigger] value@[i] != 0,
        decreases from,
    {
        from = from - 1;
    }
    assert(is_last_part(value@, from as int, to as int));
    Some(text::lossy(vstd::slice::slice_subrange(value, from, to)))
}

/// Only one stretch of a property is its last part.
pub proof fn last_part_is_unique(value: Seq<u8>, a: int, b: int, c: int, d: int)
    requires
        is_last_part(value, a, b),
        is_last_part(value, c, d),
    ensures
        a == c && b == d,
{
    assert(value[b - 1] != 0 && value[d - 1] != 0);
    assert(b == d);
    if a < c {
        assert(value[c - 1] != 0);
    }
    if c < a {
        assert(value[a - 1] != 0);
    }
}

/// The names among replies, some of which failed.
pub open spec fn names_of(replies: Seq<Option<Vec<u8>>>) -> Seq<Seq<char>>
    decreases replies.len(),
{
    if replies.len() == 0 {
        seq![]
    } else {
        match replies.last() {
            Some(name) => names_of(replies.drop_last()).push(text::lossy_text(name@)),
            None => names_of(replies.drop_last()),
        }
    }
}

/// The names of target atoms, out of the server's replies; an atom without an
/// answer is left out.
pub fn target_names(replies: &[Option<Vec<u8>>]) -> (r: Vec<String>)
    ensures
        text::texts(r@) == names_of(replies@),
{
    broadcast use text::texts_push;

    let mut names: Vec<String> = Vec::new();
    assert(text::texts(names@) =~= names_of(replies@.take(0)));
    for i in 0..replies.len()
        invariant
            text::texts(names@) == names_of(replies@.take(i as int)),
    {
        assert(replies@.take(i + 1).drop_last() =~= replies@.take(i as int));
        if let Some(name) = &replies[i] {
            names.push(text::lossy(name.as_slice()));
        }
    }
    assert(replies@.take(replies@.len() as int) =~= replies@);
    names
}

/// The vendor of the X server.
pub fn vendor(name: &[u8]) -> (r: String)
    ensures
        r@ == text::lossy_text(name@),
{
    text::lossy(name)
}

/// The legacy text names, which the alias targets cover.
pub open spec fn is_alias(name: Seq<char>) -> bool {
    name == "UTF8_STRING"@ || name == "TEXT"@ || name == "STRING"@
}

/// The types to intern as X11 targets: all but the legacy text names.
pub open spec fn to_intern(types: Seq<Seq<char>>) -> Seq<Seq<char>> {
    types.filter(|t: Seq<char>| !is_alias(t))
}

/// The types to intern as X11 targets when proxying a Wayland owner.
pub fn intern_mimes(types: &[String]) -> (r: Vec<String>)
    ensures
        text::texts(r@) == to_intern(text::texts(types@)),
{
    broadcast use text::texts_push;

    let mut out: Vec<String> = Vec::new();
    let ghost all = text::texts(types@);
    let ghost keep = |t: Seq<char>| !is_alias(t);
    proof {
        reveal(Seq::filter);
        assert(text::texts(out@) =~= all.take(0).filter(keep));
    }
    for i in 0..types.len()
        invariant
            all == text::texts(types@),
            keep == (|t: Seq<char>| !is_alias(t)),
            text::texts(out@) == all.take(i as int).filter(keep),
    {
        proof {
            reveal(Seq::filter);
            assert(all.take(i + 1).drop_last() =~= all.take(i as int));
            assert(all.take(i + 1).last() == types@[i as int]@);
        }
        let name = types[i].as_str();
        if !(text::same(name, "UTF8_STRING") || text::same(name, "TEXT") || text::same(
            name,
            "STRING",
        )) {
            out.push(types[i].clone());
        }
    }
    assert(all.take(all.len() as int) =~= all);
    out
}

/// What one property can hold is the largest request less a kibibyte for the
/// request's own words, or nothing where there is no more than that.
pub proof fn payloads_leave_headroom(
    win: u32,
    atoms: Atoms,
    max_request_bytes: usize,
    xfixes_version: (u32, u32),
    made: X11,
)
    requires
        call_ensures(X11::new, (win, atoms, max_request_bytes, xfixes_version), made),
    ensures
        max_request_bytes > 1024 ==> made.max_payload + 1024 == max_request_bytes,
        max_request_bytes <= 1024 ==> made.max_payload == 0,
        made.win == win,
        made.atoms == atoms,
        made.xfixes_version == xfixes_version,
{
}

/// Each selection goes by its own atom and receives target lists in a property
/// of its own.
pub proof fn selections_have_their_own_atoms(
    x11: X11,
    first: u32,
    second: u32,
    first_property: u32,
    second_property: u32,
)
    requires
        call_ensures(X11::selection_atom, (&x11, SelKind::Clipboard), first),
        call_ensures(X11::selection_atom, (&x11, SelKind::Primary), second),
        call_ensures(X11::targets_property, (&x11, SelKind::Clipboard), first_property),
        call_ensures(X11::targets_property, (&x11, SelKind::Primary), second_property),
    ensures
        first == x11.atoms.clipboard,
        second == 1,
        first_property == x11.atoms.clipferry_targets,
        second_property == x11.atoms.clipferry_targets_primary,
{
}

/// The server's time is that of a change to the bridge's own property on the
/// bridge's own window, and of no other.
pub proof fn server_time_comes_from_the_own_property(
    x11: X11,
    event: PropertyNotify,
    time: Option<u32>,
)
    requires
        call_ensures(X11::server_time, (&x11, &event), time),
    ensures
        time is Some <==> event.window == x11.win && event.atom == x11.atoms.clipferry,
        time is Some ==> time->0 == event.time,
{
}

/// An answer is waited for in steps of a millisecond, for two seconds.
pub proof fn answers_are_waited_for(elapsed_ms: u64, what: Wait)
    requires
        call_ensures(wait, (elapsed_ms,), what),
    ensures
        what is GiveUp <==> elapsed_ms > 2000,
        elapsed_ms <= 2000 ==> what == Wait::Sleep(1),
{
}

/// The pause before another attempt to connect starts at half a second and
/// doubles up to five.
pub proof fn backoff_doubles(failures: nat)
    ensures
        backoff_ms(0) == 500,
        2 * backoff_ms(failures) <= 5000 ==> backoff_ms(failures + 1) == 2 * backoff_ms(failures),
        2 * backoff_ms(failures) > 5000 ==> backoff_ms(failures + 1) == 5000,
{
}

/// Four bytes make a word, the first the lowest or the first the highest.
pub proof fn four_bytes_make_a_word(bytes: Seq<u8>, at: int)
    requires
        0 <= at,
        at + 4 <= bytes.len(),
    ensures
        word(bytes, at, true) == bytes[at] + 0x100 * bytes[at + 1] + 0x1_0000 * bytes[at + 2]
            + 0x100_0000 * bytes[at + 3],
        word(bytes, at, false) == 0x100_0000 * bytes[at] + 0x1_0000 * bytes[at + 1] + 0x100
            * bytes[at + 2] + bytes[at + 3],
        word(bytes, at, true) == word(bytes.subrange(at, at + 4).reverse(), 0, false),
        0 <= word(bytes, at, true) <= u32::MAX,
        0 <= word(bytes, at, false) <= u32::MAX,
{
}

/// A list of targets is made of words of the format that atoms have, each in
/// its place; values of another format are no list.
pub proof fn targets_are_words(format: u8, value: Vec<u8>, atoms: Vec<u32>, i: int)
    requires
        call_ensures(target_atoms, (format, value), atoms),
    ensures
        format != 32 ==> atoms@.len() == 0,
        format == 32 ==> atoms@.len() == value@.len() / 4,
        format == 32 && 0 <= i < atoms@.len() ==> atoms@[i] == word(value@, 4 * i, true) || atoms@[i]
            == word(value@, 4 * i, false),
{
}

/// The window that a check names is the first of its values, if there is one
/// and it is a window.
pub proof fn the_first_value_is_the_window(values: Seq<u32>)
    ensures
        first_window(None) is None,
        values.len() == 0 ==> first_window(Some(values)) is None,
        values.len() > 0 && values[0] == 0 ==> first_window(Some(values)) is None,
        values.len() > 0 && values[0] != 0 ==> first_window(Some(values)) == Some(values[0]),
        window_named(0) is None,
        forall|n: int| 0 < n <= u32::MAX ==> #[trigger] window_named(n) == Some(n as u32),
{
}

/// The names of targets are those that the server gave, in order; a target
/// that it gave no name for is left out.
pub proof fn named_targets_keep_their_order(replies: Seq<Option<Vec<u8>>>, more: Vec<u8>)
    ensures
        names_of(Seq::empty()).len() == 0,
        names_of(replies.push(None)) == names_of(replies),
        names_of(replies.push(Some(more))) == names_of(replies).push(text::lossy_text(more@)),
{
    assert(replies.push(None).drop_last() =~= replies);
    assert(replies.push(Some(more)).drop_last() =~= replies);
}

/// The window that the manager's check names is the first word of its value, if
/// there is one and it names a window.
pub proof fn the_check_window_is_the_first_word(
    format: u8,
    value: Vec<u8>,
    r: Option<u32>,
    values: Vec<u32>,
    found: Option<u32>,
)
    requires
        call_ensures(wm_check_window, (format, value), r),
        call_ensures(check_window, (&Some(values),), found),
    ensures
        format != 32 || value@.len() < 4 ==> r is None,
        r matches Some(window) ==> window != 0 && (window == word(value@, 0, true) || window
            == word(value@, 0, false)),
        format == 32 && value@.len() >= 4 && word(value@, 0, true) != 0 && word(value@, 0, false)
            != 0 ==> r is Some,
        values@.len() > 0 && values@[0] != 0 ==> found == Some(values@[0]),
        values@.len() == 0 || values@[0] == 0 ==> found is None,
{
    if value@.len() >= 4 {
        four_bytes_make_a_word(value@, 0);
    }
}

/// The class of a client is the last part of its value that is not empty: of an
/// instance and a class that each end in a zero byte, the class.
pub proof fn the_class_comes_last(
    instance: Seq<u8>,
    class: Seq<u8>,
    value: &[u8],
    r: Option<String>,
)
    requires
        call_ensures(owner_class, (value,), r),
        value@ == instance.push(0) + class.push(0),
        class.len() > 0,
        forall|i: int| 0 <= i < class.len() ==> #[trigger] class[i] != 0,
        r is Some,
    ensures
        r->0@ == text::lossy_text(class),
{
    let all = value@;
    let from = instance.len() + 1;
    let to = from + class.len();
    assert(is_last_part(all, from as int, to as int)) by {
        assert forall|i: int| from <= i < to implies #[trigger] all[i] != 0 by {
            assert(all[i] == class[i - from]);
        }
        assert(all[from - 1] == 0);
    }
    let (a, b) = choose|a: int, b: int| #[trigger]
        is_last_part(all, a, b) && r->0@ == text::lossy_text(all.subrange(a, b));
    last_part_is_unique(all, a, b, from as int, to as int);
    assert(all.subrange(from as int, to as int) =~= class);
}

/// Names are handed out as they are stated, in order.
pub proof fn names_are_listed(
    replies: &[Option<Vec<u8>>],
    names: Vec<String>,
    types: &[String],
    interned: Vec<String>,
    bytes: &[u8],
    said: String,
    i: int,
)
    requires
        call_ensures(target_names, (replies,), names),
        call_ensures(intern_mimes, (types,), interned),
        call_ensures(vendor, (bytes,), said),
    ensures
        names@.len() == names_of(replies@).len(),
        0 <= i < names@.len() ==> names@[i]@ == names_of(replies@)[i],
        interned@.len() == to_intern(text::texts(types@)).len(),
        0 <= i < interned@.len() ==> interned@[i]@ == to_intern(text::texts(types@))[i],
        said@ == text::lossy_text(bytes@),
{
    let a = text::texts(names@);
    let b = text::texts(interned@);
    assert(a.len() == names@.len() && b.len() == interned@.len());
    if 0 <= i < names@.len() {
        assert(a[i] == names@[i]@);
    }
    if 0 <= i < interned@.len() {
        assert(b[i] == interned@[i]@);
    }
}

} // verus!
