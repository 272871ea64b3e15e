//! MIME types, X11 targets, and the translation between the two.

use vstd::prelude::*;

use crate::text;

verus! {

pub const GNOME_COPIED_FILES: &'static str = "x-special/gnome-copied-files";

pub const URI_LIST: &'static str = "text/uri-list";

pub const QT_IMAGE: &'static str = "application/x-qt-image";

pub const KDE_PASSWORD_HINT: &'static str = "x-kde-passwordManagerHint";

/// Preferred order for reading text from a Wayland offer.
pub const TEXT_MIMES: [&'static str; 5] = [
    "text/plain;charset=utf-8",
    "UTF8_STRING",
    "text/plain",
    "TEXT",
    "STRING",
];

/// MIME types advertised on the Wayland side for an X11 text owner.
pub const X2W_TEXT_MIMES: [&'static str; 5] = [
    "text/plain;charset=utf-8",
    "text/plain",
    "UTF8_STRING",
    "TEXT",
    "STRING",
];

/// X11 protocol machinery: never forwarded as content types.
pub const PROTOCOL_TARGETS: [&'static str; 6] = [
    "TARGETS",
    "TIMESTAMP",
    "MULTIPLE",
    "SAVE_TARGETS",
    "DELETE",
    "INCR",
];

/// The name of an X11 protocol target.
pub open spec fn is_protocol(name: Seq<char>) -> bool {
    ||| name == "TARGETS"@
    ||| name == "TIMESTAMP"@
    ||| name == "MULTIPLE"@
    ||| name == "SAVE_TARGETS"@
    ||| name == "DELETE"@
    ||| name == "INCR"@
}

/// True for the X11 protocol targets.
pub fn is_protocol_target(name: &str) -> (r: bool)
    ensures
        r == is_protocol(name@),
{
    for i in 0..PROTOCOL_TARGETS.len()
        invariant
            forall|j: int| 0 <= j < i ==> PROTOCOL_TARGETS@[j]@ != name@,
    {
        if text::same(name, PROTOCOL_TARGETS[i]) {
            return true;
        }
    }
    assert(PROTOCOL_TARGETS@[0]@ != name@);
    assert(PROTOCOL_TARGETS@[1]@ != name@);
    assert(PROTOCOL_TARGETS@[2]@ != name@);
    assert(PROTOCOL_TARGETS@[3]@ != name@);
    assert(PROTOCOL_TARGETS@[4]@ != name@);
    assert(PROTOCOL_TARGETS@[5]@ != name@);
    false
}

/// The types of an offer that stand for content: all but the X11 protocol
/// targets.
pub open spec fn content(types: Seq<Seq<char>>) -> Seq<Seq<char>> {
    types.filter(|t: Seq<char>| !is_protocol(t))
}

/// Drops the X11 protocol targets from a list of types.
pub fn content_types(types: &[String]) -> (r: Vec<String>)
    ensures
        text::texts(r@) == content(text::texts(types@)),
{
    broadcast use text::texts_push;

    let mut out: Vec<String> = Vec::new();
    let ghost all = text::texts(types@);
    let ghost keep = |t: Seq<char>| !is_protocol(t);
    proof {
        reveal(Seq::filter);
        assert(all.take(0).filter(keep) =~= Seq::<Seq<char>>::empty());
        assert(text::texts(out@) =~= Seq::<Seq<char>>::empty());
    }
    for i in 0..types.len()
        invariant
            all == text::texts(types@),
            keep == (|t: Seq<char>| !is_protocol(t)),
            text::texts(out@) == all.take(i as int).filter(keep),
    {
        proof {
            reveal(Seq::filter);
            assert(all.take(i + 1).drop_last() =~= all.take(i as int));
            assert(all.take(i + 1).last() == types@[i as int]@);
        }
        if !is_protocol_target(types[i].as_str()) {
            out.push(types[i].clone());
        }
    }
    assert(all.take(all.len() as int) =~= all);
    out
}

/// The offer carries X11 protocol machinery, which no Wayland application
/// offers: another bridge mirrored the X11 side.
pub open spec fn is_mirror(types: Seq<Seq<char>>) -> bool {
    exists|i: int| 0 <= i < types.len() && is_protocol(#[trigger] types[i])
}

/// True when an offer is another bridge's mirror of the X11 side.
pub fn is_x11_mirror(types: &[String]) -> (r: bool)
    ensures
        r == is_mirror(text::texts(types@)),
{
    for i in 0..types.len()
        invariant
            forall|j: int| 0 <= j < i ==> !is_protocol(#[trigger] text::texts(types@)[j]),
    {
        if is_protocol_target(types[i].as_str()) {
            assert(is_protocol(text::texts(types@)[i as int]));
            return true;
        }
    }
    false
}

/// The names that mean plain text.
pub open spec fn plain_text(name: Seq<char>) -> bool {
    ||| name == "UTF8_STRING"@
    ||| name == "STRING"@
    ||| name == "TEXT"@
    ||| name == "text/plain"@
    ||| name == "text/plain;charset=utf-8"@
    ||| name == "text/plain;charset=UTF-8"@
}

/// Plain-text targets and MIME types that collapse into the standard text set
/// when translating. (`text/html` and the like are not plain text: they pass
/// verbatim.)
pub fn is_plain_text(name: &str) -> (r: bool)
    ensures
        r == plain_text(name@),
{
    text::same(name, "UTF8_STRING") || text::same(name, "STRING") || text::same(name, "TEXT")
        || text::same(name, "text/plain") || text::same(name, "text/plain;charset=utf-8")
        || text::same(name, "text/plain;charset=UTF-8")
}

/// The text type to read from an offer, by order of preference.
pub open spec fn preferred_text(types: Seq<Seq<char>>) -> Option<Seq<char>> {
    if types.contains("text/plain;charset=utf-8"@) {
        Some("text/plain;charset=utf-8"@)
    } else if types.contains("UTF8_STRING"@) {
        Some("UTF8_STRING"@)
    } else if types.contains("text/plain"@) {
        Some("text/plain"@)
    } else if types.contains("TEXT"@) {
        Some("TEXT"@)
    } else if types.contains("STRING"@) {
        Some("STRING"@)
    } else {
        None
    }
}

/// Picks the text type to read from an offer.
pub fn pick_text(mime_types: &[String]) -> (r: Option<&'static str>)
    ensures
        r matches Some(t) ==> preferred_text(text::texts(mime_types@)) == Some(t@),
        r is None ==> preferred_text(text::texts(mime_types@)) is None,
{
    let ghost all = text::texts(mime_types@);
    for i in 0..TEXT_MIMES.len()
        invariant
            all == text::texts(mime_types@),
            forall|j: int| 0 <= j < i ==> !all.contains(#[trigger] TEXT_MIMES@[j]@),
    {
        if text::contains(mime_types, TEXT_MIMES[i]) {
            proof {
                assert(i > 0 ==> !all.contains(TEXT_MIMES@[0]@));
                assert(i > 1 ==> !all.contains(TEXT_MIMES@[1]@));
                assert(i > 2 ==> !all.contains(TEXT_MIMES@[2]@));
                assert(i > 3 ==> !all.contains(TEXT_MIMES@[3]@));
            }
            return Some(TEXT_MIMES[i]);
        }
    }
    assert(!all.contains(TEXT_MIMES@[0]@));
    assert(!all.contains(TEXT_MIMES@[1]@));
    assert(!all.contains(TEXT_MIMES@[2]@));
    assert(!all.contains(TEXT_MIMES@[3]@));
    assert(!all.contains(TEXT_MIMES@[4]@));
    None
}

/// The sensitive-content marker: any offer that carries the KDE
/// password-manager hint. Reading the hint's value would itself be a
/// transfer; its presence is the signal.
pub fn is_sensitive(types: &[String]) -> (r: bool)
    ensures
        r == text::texts(types@).contains(KDE_PASSWORD_HINT@),
{
    text::contains(types, KDE_PASSWORD_HINT)
}

/// Content transform for the translated rows. Both variants touch only the
/// head of the stream.
#[derive(Debug, Clone, Copy, PartialEq, Eq, Default, Structural)]
pub enum Transform {
    /// Bytes pass as they are.
    #[default]
    Identity,
    /// `x-special/gnome-copied-files` to `text/uri-list`: drop the leading
    /// `copy` or `cut` action line.
    StripCopyHeader,
    /// `text/uri-list` to `x-special/gnome-copied-files`: prepend `copy\n`.
    PrependCopyHeader,
}

/// The action line that opens a copied-files list.
pub open spec fn copy_header() -> Seq<u8> {
    seq![0x63u8, 0x6fu8, 0x70u8, 0x79u8, 0x0au8]
}

/// The action line of a list of files that were cut.
pub open spec fn cut_header() -> Seq<u8> {
    seq![0x63u8, 0x75u8, 0x74u8, 0x0au8]
}

/// What a transform makes of a payload.
pub open spec fn transformed(transform: Transform, data: Seq<u8>) -> Seq<u8> {
    match transform {
        Transform::Identity => data,
        Transform::StripCopyHeader => if copy_header().is_prefix_of(data) {
            data.skip(5)
        } else if cut_header().is_prefix_of(data) {
            data.skip(4)
        } else {
            data
        },
        Transform::PrependCopyHeader => copy_header() + data,
    }
}

/// Stripping the action line undoes prepending it: a list of files that
/// crosses over and back is unchanged.
pub proof fn strip_undoes_prepend(data: Seq<u8>)
    ensures
        transformed(
            Transform::StripCopyHeader,
            transformed(Transform::PrependCopyHeader, data),
        ) == data,
{
    let wrapped = copy_header() + data;
    assert(copy_header().is_prefix_of(wrapped));
    assert(wrapped.skip(5) =~= data);
}

/// The names and the transform of each row of a read plan: the type
/// advertised, the type to read for it, and what to do to the bytes.
pub open spec fn rows(plan: Seq<(String, String, Transform)>) -> Seq<
    (Seq<char>, Seq<char>, Transform),
> {
    plan.map_values(|r: (String, String, Transform)| (r.0@, r.1@, r.2))
}

/// Appending a row appends its names and transform.
pub broadcast proof fn rows_push(
    plan: Seq<(String, String, Transform)>,
    row: (String, String, Transform),
)
    ensures
        #[trigger] rows(plan.push(row)) == rows(plan).push((row.0@, row.1@, row.2)),
{
    assert(rows(plan.push(row)) =~= rows(plan).push((row.0@, row.1@, row.2)));
}

/// The X11 targets to synthesize for a Wayland offer: whichever of the two
/// file-list formats the offer lacks, read from the other.
pub open spec fn synthesized(offered: Seq<Seq<char>>) -> Seq<(Seq<char>, Seq<char>, Transform)> {
    if offered.contains(URI_LIST@) && !offered.contains(GNOME_COPIED_FILES@) {
        seq![(GNOME_COPIED_FILES@, URI_LIST@, Transform::PrependCopyHeader)]
    } else if offered.contains(GNOME_COPIED_FILES@) && !offered.contains(URI_LIST@) {
        seq![(URI_LIST@, GNOME_COPIED_FILES@, Transform::StripCopyHeader)]
    } else {
        seq![]
    }
}

/// Extra X11 targets to synthesize for a Wayland offer: target name, source
/// MIME type to read, transform.
pub fn synthesized_x11_targets(offered: &[String]) -> (r: Vec<(String, String, Transform)>)
    ensures
        rows(r@) == synthesized(text::texts(offered@)),
{
    let mut extra: Vec<(String, String, Transform)> = Vec::new();
    let uri_list = text::contains(offered, URI_LIST);
    let gnome = text::contains(offered, GNOME_COPIED_FILES);
    if uri_list && !gnome {
        extra.push(
            (GNOME_COPIED_FILES.to_owned(), URI_LIST.to_owned(), Transform::PrependCopyHeader),
        );
    } else if gnome && !uri_list {
        extra.push(
            (URI_LIST.to_owned(), GNOME_COPIED_FILES.to_owned(), Transform::StripCopyHeader),
        );
    }
    assert(rows(extra@) =~= synthesized(text::texts(offered@)));
    extra
}

/// A sequence without its repetitions: each value where it first stands.
pub open spec fn distinct(s: Seq<Seq<char>>) -> Seq<Seq<char>>
    decreases s.len(),
{
    if s.len() == 0 {
        seq![]
    } else {
        let before = distinct(s.drop_last());
        if before.contains(s.last()) {
            before
        } else {
            before.push(s.last())
        }
    }
}

/// What one X11 target, other than plain text, contributes to the Wayland
/// offer. Protocol targets contribute nothing; neither does the Qt image
/// blob where a URI list stands beside it (Wine and WeChat offer both, and
/// only the list is usable). A copied-files list without a URI list beside
/// it brings one along. Everything else passes verbatim.
pub open spec fn forwarded_as(target: Seq<char>, has_uri_list: bool) -> Seq<Seq<char>> {
    if is_protocol(target) || plain_text(target) || (target == QT_IMAGE@ && has_uri_list) {
        seq![]
    } else if target == GNOME_COPIED_FILES@ && !has_uri_list {
        seq![URI_LIST@, GNOME_COPIED_FILES@]
    } else {
        seq![target]
    }
}

/// What all targets contribute, in their order.
pub open spec fn forwarded(targets: Seq<Seq<char>>, has_uri_list: bool) -> Seq<Seq<char>>
    decreases targets.len(),
{
    if targets.len() == 0 {
        seq![]
    } else {
        forwarded(targets.drop_last(), has_uri_list) + forwarded_as(targets.last(), has_uri_list)
    }
}

/// One of the targets is plain text.
pub open spec fn offers_text(targets: Seq<Seq<char>>) -> bool {
    exists|i: int| 0 <= i < targets.len() && plain_text(#[trigger] targets[i])
}

/// The standard set of text types.
pub open spec fn text_set() -> Seq<Seq<char>> {
    seq![
        "text/plain;charset=utf-8"@,
        "text/plain"@,
        "UTF8_STRING"@,
        "TEXT"@,
        "STRING"@,
    ]
}

/// The Wayland types to advertise for an X11 owner: the standard text set
/// where it offers any plain text, then what the other targets contribute.
pub open spec fn advertised(targets: Seq<Seq<char>>) -> Seq<Seq<char>> {
    distinct(
        (if offers_text(targets) {
            text_set()
        } else {
            seq![]
        }) + forwarded(targets, targets.contains(URI_LIST@)),
    )
}

/// The read plans for an X11 owner: a synthesized URI list is read from each
/// copied-files target and loses the action line.
pub open spec fn read_plans(targets: Seq<Seq<char>>) -> Seq<(Seq<char>, Seq<char>, Transform)> {
    if targets.contains(URI_LIST@) {
        seq![]
    } else {
        targets.filter(|t: Seq<char>| t == GNOME_COPIED_FILES@).map_values(
            |t: Seq<char>| (URI_LIST@, GNOME_COPIED_FILES@, Transform::StripCopyHeader),
        )
    }
}

/// No protocol target is a text name, and the file-list formats and the Qt
/// image are neither.
proof fn names_do_not_overlap(name: Seq<char>)
    ensures
        is_protocol(name) ==> !plain_text(name),
        name == GNOME_COPIED_FILES@ || name == URI_LIST@ || name == QT_IMAGE@
            || name == KDE_PASSWORD_HINT@ ==> !plain_text(name) && !is_protocol(name),
        GNOME_COPIED_FILES@ != QT_IMAGE@,
        GNOME_COPIED_FILES@ != URI_LIST@,
        URI_LIST@ != QT_IMAGE@,
{
    reveal_strlit("x-special/gnome-copied-files");
    reveal_strlit("text/uri-list");
    reveal_strlit("x-kde-passwordManagerHint");
    reveal_strlit("application/x-qt-image");
    reveal_strlit("TARGETS");
    reveal_strlit("TIMESTAMP");
    reveal_strlit("MULTIPLE");
    reveal_strlit("SAVE_TARGETS");
    reveal_strlit("DELETE");
    reveal_strlit("INCR");
    reveal_strlit("UTF8_STRING");
    reveal_strlit("STRING");
    reveal_strlit("TEXT");
    reveal_strlit("text/plain");
    reveal_strlit("text/plain;charset=utf-8");
    reveal_strlit("text/plain;charset=UTF-8");
    assert("TARGETS"@.len() == 7 && "TIMESTAMP"@.len() == 9 && "MULTIPLE"@.len() == 8
        && "SAVE_TARGETS"@.len() == 12 && "DELETE"@.len() == 6 && "INCR"@.len() == 4);
    assert("UTF8_STRING"@.len() == 11 && "STRING"@.len() == 6 && "TEXT"@.len() == 4
        && "text/plain"@.len() == 10 && "text/plain;charset=utf-8"@.len() == 24
        && "text/plain;charset=UTF-8"@.len() == 24);
    assert(GNOME_COPIED_FILES@.len() == 28 && URI_LIST@.len() == 13 && QT_IMAGE@.len() == 22
        && KDE_PASSWORD_HINT@.len() == 25);
    assert("DELETE"@[0] == 'D' && "STRING"@[0] == 'S' && "INCR"@[0] == 'I' && "TEXT"@[0] == 'T');
}

proof fn distinct_step(s: Seq<Seq<char>>, n: int)
    requires
        0 <= n < s.len(),
    ensures
        distinct(s.take(n + 1)) == (if distinct(s.take(n)).contains(s[n]) {
            distinct(s.take(n))
        } else {
            distinct(s.take(n)).push(s[n])
        }),
{
    assert(s.take(n + 1).drop_last() =~= s.take(n));
}

/// Drops the repetitions from a list of types.
fn without_repetitions(list: Vec<String>) -> (r: Vec<String>)
    ensures
        text::texts(r@) == distinct(text::texts(list@)),
{
    broadcast use text::texts_push;

    let ghost all = text::texts(list@);
    let mut out: Vec<String> = Vec::new();
    assert(text::texts(out@) =~= distinct(all.take(0)));
    for i in 0..list.len()
        invariant
            all == text::texts(list@),
            text::texts(out@) == distinct(all.take(i as int)),
    {
        proof {
            distinct_step(all, i as int);
        }
        if !text::contains(out.as_slice(), list[i].as_str()) {
            out.push(list[i].clone());
        }
    }
    assert(all.take(all.len() as int) =~= all);
    out
}

/// Translates an X11 owner's target names. Returns the Wayland MIME types to
/// advertise, and the read plans: advertised MIME type, X11 target to read,
/// transform.
pub fn x2w_translate(targets: &[String]) -> (r: (Vec<String>, Vec<(String, String, Transform)>))
    ensures
        text::texts(r.0@) == advertised(text::texts(targets@)),
        rows(r.1@) == read_plans(text::texts(targets@)),
{
    broadcast use {text::texts_push, rows_push};

    let ghost all = text::texts(targets@);
    let has_uri_list = text::contains(targets, URI_LIST);
    let mut others: Vec<String> = Vec::new();
    let mut plans: Vec<(String, String, Transform)> = Vec::new();
    let mut has_text = false;
    let ghost is_gnome = |t: Seq<char>| t == GNOME_COPIED_FILES@;
    let ghost plan = |t: Seq<char>| (URI_LIST@, GNOME_COPIED_FILES@, Transform::StripCopyHeader);
    proof {
        reveal(Seq::filter);
        assert(text::texts(others@) =~= forwarded(all.take(0), has_uri_list));
        assert(rows(plans@) =~= all.take(0).filter(is_gnome).map_values(plan));
    }
    for i in 0..targets.len()
        invariant
            all == text::texts(targets@),
            has_uri_list == all.contains(URI_LIST@),
            is_gnome == (|t: Seq<char>| t == GNOME_COPIED_FILES@),
            plan == (|t: Seq<char>|
                (URI_LIST@, GNOME_COPIED_FILES@, Transform::StripCopyHeader)),
            has_text == offers_text(all.take(i as int)),
            text::texts(others@) == forwarded(all.take(i as int), has_uri_list),
            !has_uri_list ==> rows(plans@) == all.take(i as int).filter(is_gnome).map_values(plan),
            has_uri_list ==> plans@.len() == 0,
    {
        let target = targets[i].as_str();
        let ghost before = all.take(i as int);
        let ghost now = all.take(i + 1);
        proof {
            reveal(Seq::filter);
            names_do_not_overlap(target@);
            assert(now.drop_last() =~= before);
            assert(now.last() == target@);
            assert(offers_text(now) == (offers_text(before) || plain_text(target@))) by {
                if offers_text(before) {
                    let j = choose|j: int| 0 <= j < before.len() && plain_text(#[trigger] before[j]);
                    assert(plain_text(now[j]));
                }
                if plain_text(target@) {
                    assert(plain_text(now[i as int]));
                }
                if offers_text(now) && !plain_text(target@) {
                    let j = choose|j: int| 0 <= j < now.len() && plain_text(#[trigger] now[j]);
                    assert(plain_text(before[j]));
                }
            }
            assert(now.filter(is_gnome) == (if target@ == GNOME_COPIED_FILES@ {
                before.filter(is_gnome).push(target@)
            } else {
                before.filter(is_gnome)
            }));
            assert(before.filter(is_gnome).push(target@).map_values(plan) =~= before.filter(
                is_gnome,
            ).map_values(plan).push(
                (URI_LIST@, GNOME_COPIED_FILES@, Transform::StripCopyHeader),
            ));
        }
        if is_protocol_target(target) {
        } else if is_plain_text(target) {
            has_text = true;
        } else if has_uri_list && text::same(target, QT_IMAGE) {
        } else if !has_uri_list && text::same(target, GNOME_COPIED_FILES) {
            others.push(URI_LIST.to_owned());
            others.push(GNOME_COPIED_FILES.to_owned());
            plans.push(
                (URI_LIST.to_owned(), GNOME_COPIED_FILES.to_owned(), Transform::StripCopyHeader),
            );
        } else {
            others.push(targets[i].clone());
        }
        assert(text::texts(others@) =~= forwarded(before, has_uri_list) + forwarded_as(
            target@,
            has_uri_list,
        ));
    }
    assert(all.take(all.len() as int) =~= all);

    let mut found: Vec<String> = Vec::new();
    if has_text {
        for i in 0..X2W_TEXT_MIMES.len()
            invariant
                text::texts(found@) =~= text_set().take(i as int),
        {
            assert(X2W_TEXT_MIMES@[i as int]@ == text_set()[i as int]);
            assert(text_set().take(i + 1) =~= text_set().take(i as int).push(
                text_set()[i as int],
            ));
            found.push(X2W_TEXT_MIMES[i].to_owned());
        }
        assert(text_set().take(5) =~= text_set());
    }
    let ghost head = text::texts(found@);
    let ghost tail = text::texts(others@);
    assert(text::texts(found@ + others@) =~= head + tail);
    assert(!has_text ==> head =~= Seq::<Seq<char>>::empty());
    found.append(&mut others);
    assert(!has_uri_list || rows(plans@) =~= seq![]);
    (without_repetitions(found), plans)
}

/// Dropping repetitions loses no value, adds none, and leaves none twice.
proof fn distinct_keeps(s: Seq<Seq<char>>)
    ensures
        distinct(s).no_duplicates(),
        forall|x: Seq<char>| distinct(s).contains(x) <==> s.contains(x),
    decreases s.len(),
{
    if s.len() > 0 {
        let front = s.drop_last();
        let before = distinct(front);
        distinct_keeps(front);
        assert forall|x: Seq<char>| distinct(s).contains(x) <==> s.contains(x) by {
            if s.contains(x) {
                let i = choose|i: int| 0 <= i < s.len() && s[i] == x;
                if i < front.len() {
                    assert(front[i] == x);
                    assert(front.contains(x));
                    assert(before.contains(x));
                    let k = choose|k: int| 0 <= k < before.len() && before[k] == x;
                    assert(distinct(s)[k] == x);
                } else if !before.contains(x) {
                    assert(distinct(s)[before.len() as int] == x);
                }
            }
            if distinct(s).contains(x) {
                let i = choose|i: int| 0 <= i < distinct(s).len() && distinct(s)[i] == x;
                if i < before.len() {
                    assert(before[i] == x);
                    assert(front.contains(x));
                    let k = choose|k: int| 0 <= k < front.len() && front[k] == x;
                    assert(s[k] == x);
                } else {
                    assert(s[s.len() - 1] == x);
                }
            }
        }
    }
}

/// A type is forwarded exactly when some target contributes it.
proof fn forwarded_contains(targets: Seq<Seq<char>>, has_uri_list: bool, x: Seq<char>)
    ensures
        forwarded(targets, has_uri_list).contains(x) <==> exists|i: int|
            0 <= i < targets.len() && forwarded_as(#[trigger] targets[i], has_uri_list).contains(x),
    decreases targets.len(),
{
    if targets.len() > 0 {
        let front = targets.drop_last();
        let a = forwarded(front, has_uri_list);
        let b = forwarded_as(targets.last(), has_uri_list);
        forwarded_contains(front, has_uri_list, x);
        if (a + b).contains(x) {
            let k = choose|k: int| 0 <= k < (a + b).len() && (a + b)[k] == x;
            if k < a.len() {
                assert(a[k] == x);
                let i = choose|i: int|
                    0 <= i < front.len() && forwarded_as(#[trigger] front[i], has_uri_list).contains(
                        x,
                    );
                assert(forwarded_as(targets[i], has_uri_list).contains(x));
            } else {
                assert(b[k - a.len()] == x);
                assert(forwarded_as(targets[targets.len() - 1], has_uri_list).contains(x));
            }
        }
        if exists|i: int|
            0 <= i < targets.len() && forwarded_as(#[trigger] targets[i], has_uri_list).contains(x) {
            let i = choose|i: int|
                0 <= i < targets.len() && forwarded_as(#[trigger] targets[i], has_uri_list).contains(
                    x,
                );
            if i < front.len() {
                assert(forwarded_as(front[i], has_uri_list).contains(x));
                let k = choose|k: int| 0 <= k < a.len() && a[k] == x;
                assert((a + b)[k] == x);
            } else {
                let k = choose|k: int| 0 <= k < b.len() && b[k] == x;
                assert((a + b)[a.len() + k] == x);
            }
        }
    }
}

/// A type is advertised exactly when it belongs to the text set of an owner
/// that offers plain text, or some target contributes it.
proof fn advertised_contains(targets: Seq<Seq<char>>, x: Seq<char>)
    ensures
        advertised(targets).contains(x) <==> {
            ||| offers_text(targets) && text_set().contains(x)
            ||| exists|i: int|
                0 <= i < targets.len() && forwarded_as(
                    #[trigger] targets[i],
                    targets.contains(URI_LIST@),
                ).contains(x)
        },
{
    let head = if offers_text(targets) {
        text_set()
    } else {
        seq![]
    };
    let tail = forwarded(targets, targets.contains(URI_LIST@));
    distinct_keeps(head + tail);
    forwarded_contains(targets, targets.contains(URI_LIST@), x);
    if head.contains(x) {
        let k = choose|k: int| 0 <= k < head.len() && head[k] == x;
        assert((head + tail)[k] == x);
    }
    if tail.contains(x) {
        let k = choose|k: int| 0 <= k < tail.len() && tail[k] == x;
        assert((head + tail)[head.len() + k] == x);
    }
    if (head + tail).contains(x) {
        let k = choose|k: int| 0 <= k < (head + tail).len() && (head + tail)[k] == x;
        if k < head.len() {
            assert(head[k] == x);
        } else {
            assert(tail[k - head.len()] == x);
        }
    }
}

/// The Wayland offer made for an X11 owner names no X11 protocol target, and
/// no type twice.
pub proof fn advertised_types_are_content(targets: Seq<Seq<char>>)
    ensures
        advertised(targets).no_duplicates(),
        forall|i: int| 0 <= i < advertised(targets).len() ==> !is_protocol(
            #[trigger] advertised(targets)[i],
        ),
{
    let result = advertised(targets);
    let head = if offers_text(targets) {
        text_set()
    } else {
        seq![]
    };
    distinct_keeps(head + forwarded(targets, targets.contains(URI_LIST@)));
    assert forall|i: int| 0 <= i < result.len() implies !is_protocol(#[trigger] result[i]) by {
        let x = result[i];
        assert(result.contains(x));
        advertised_contains(targets, x);
        names_do_not_overlap(x);
        if offers_text(targets) && text_set().contains(x) {
            assert(plain_text(x));
        } else {
            let k = choose|k: int|
                0 <= k < targets.len() && forwarded_as(
                    #[trigger] targets[k],
                    targets.contains(URI_LIST@),
                ).contains(x);
            assert(x == targets[k] || x == URI_LIST@);
            names_do_not_overlap(URI_LIST@);
        }
    }
}

/// Whatever is neither protocol machinery, nor plain text, nor a Qt image
/// beside a URI list, is advertised under its own name.
pub proof fn other_types_pass_verbatim(targets: Seq<Seq<char>>, name: Seq<char>)
    requires
        targets.contains(name),
        !is_protocol(name),
        !plain_text(name),
        name != QT_IMAGE@ || !targets.contains(URI_LIST@),
    ensures
        advertised(targets).contains(name),
{
    let i = choose|i: int| 0 <= i < targets.len() && targets[i] == name;
    let row = forwarded_as(targets[i], targets.contains(URI_LIST@));
    assert(row[row.len() - 1] == name);
    assert(row.contains(name));
    advertised_contains(targets, name);
}

/// Plain text under any name is advertised as the whole standard text set,
/// first; an owner without plain text gets none of it.
pub proof fn text_collapses(targets: Seq<Seq<char>>)
    ensures
        offers_text(targets) ==> text_set().is_prefix_of(advertised(targets)),
        !offers_text(targets) ==> forall|i: int|
            0 <= i < advertised(targets).len() ==> !plain_text(#[trigger] advertised(targets)[i]),
{
    let tail = forwarded(targets, targets.contains(URI_LIST@));
    if offers_text(targets) {
        distinct_prefix(text_set(), tail);
        text_set_is_distinct();
    } else {
        assert forall|i: int| 0 <= i < advertised(targets).len() implies !plain_text(
            #[trigger] advertised(targets)[i],
        ) by {
            let x = advertised(targets)[i];
            assert(advertised(targets).contains(x));
            advertised_contains(targets, x);
            let k = choose|k: int|
                0 <= k < targets.len() && forwarded_as(
                    #[trigger] targets[k],
                    targets.contains(URI_LIST@),
                ).contains(x);
            assert(x == targets[k] || x == URI_LIST@);
            names_do_not_overlap(URI_LIST@);
        }
    }
}

proof fn distinct_prefix(a: Seq<Seq<char>>, b: Seq<Seq<char>>)
    ensures
        distinct(a).is_prefix_of(distinct(a + b)),
    decreases b.len(),
{
    if b.len() == 0 {
        assert(a + b =~= a);
    } else {
        assert((a + b).drop_last() =~= a + b.drop_last());
        distinct_prefix(a, b.drop_last());
    }
}

proof fn text_set_is_distinct()
    ensures
        distinct(text_set()) == text_set(),
{
    reveal_strlit("text/plain;charset=utf-8");
    reveal_strlit("text/plain");
    reveal_strlit("UTF8_STRING");
    reveal_strlit("TEXT");
    reveal_strlit("STRING");
    let s = text_set();
    assert(s[0].len() == 24 && s[1].len() == 10 && s[2].len() == 11 && s[3].len() == 4
        && s[4].len() == 6);
    distinct_step(s, 0);
    distinct_step(s, 1);
    distinct_step(s, 2);
    distinct_step(s, 3);
    distinct_step(s, 4);
    assert(distinct(s.take(0)) =~= s.take(0));
    assert(distinct(s.take(1)) =~= s.take(1));
    assert(distinct(s.take(2)) =~= s.take(2));
    assert(distinct(s.take(3)) =~= s.take(3));
    assert(distinct(s.take(4)) =~= s.take(4));
    assert(distinct(s.take(5)) =~= s.take(5));
    assert(s.take(5) =~= s);
}

/// A filter that no value passes leaves nothing.
proof fn nothing_passes(s: Seq<Seq<char>>, pred: spec_fn(Seq<char>) -> bool)
    requires
        forall|i: int| 0 <= i < s.len() ==> !pred(#[trigger] s[i]),
    ensures
        s.filter(pred).len() == 0,
    decreases s.len(),
{
    reveal(Seq::filter);
    if s.len() > 0 {
        assert forall|i: int| 0 <= i < s.drop_last().len() implies !pred(
            #[trigger] s.drop_last()[i],
        ) by {
            assert(!pred(s[i]));
        }
        nothing_passes(s.drop_last(), pred);
        assert(!pred(s[s.len() - 1]));
    }
}

/// Every read plan serves a type that is advertised, from a target that the
/// owner has.
pub proof fn plans_serve_advertised_types(targets: Seq<Seq<char>>, i: int)
    requires
        0 <= i < read_plans(targets).len(),
    ensures
        advertised(targets).contains(read_plans(targets)[i].0),
        targets.contains(read_plans(targets)[i].1),
{
    let is_gnome = |t: Seq<char>| t == GNOME_COPIED_FILES@;
    assert(targets.contains(GNOME_COPIED_FILES@)) by {
        reveal(Seq::filter);
        if !targets.contains(GNOME_COPIED_FILES@) {
            nothing_passes(targets, is_gnome);
        }
    }
    files_are_offered_as_uri_list(targets);
}

/// An owner of files in either list format is advertised with a URI list.
pub proof fn files_are_offered_as_uri_list(targets: Seq<Seq<char>>)
    requires
        targets.contains(URI_LIST@) || targets.contains(GNOME_COPIED_FILES@),
    ensures
        advertised(targets).contains(URI_LIST@),
{
    names_do_not_overlap(URI_LIST@);
    names_do_not_overlap(GNOME_COPIED_FILES@);
    let has_uri_list = targets.contains(URI_LIST@);
    let source = if has_uri_list {
        URI_LIST@
    } else {
        GNOME_COPIED_FILES@
    };
    let i = choose|i: int| 0 <= i < targets.len() && targets[i] == source;
    let row = forwarded_as(targets[i], has_uri_list);
    assert(row[0] == URI_LIST@);
    assert(row.contains(URI_LIST@));
    advertised_contains(targets, URI_LIST@);
}

/// Neither file-list format is a legacy text name.
pub proof fn file_lists_are_not_aliases()
    ensures
        URI_LIST@ != "UTF8_STRING"@ && URI_LIST@ != "TEXT"@ && URI_LIST@ != "STRING"@,
        GNOME_COPIED_FILES@ != "UTF8_STRING"@ && GNOME_COPIED_FILES@ != "TEXT"@
            && GNOME_COPIED_FILES@ != "STRING"@,
{
    names_do_not_overlap(URI_LIST@);
    names_do_not_overlap(GNOME_COPIED_FILES@);
}

/// Exactly six names are X11 protocol machinery.
pub proof fn six_names_are_protocol(name: Seq<char>)
    ensures
        is_protocol(name) <==> seq![
            "TARGETS"@,
            "TIMESTAMP"@,
            "MULTIPLE"@,
            "SAVE_TARGETS"@,
            "DELETE"@,
            "INCR"@,
        ].contains(name),
{
    let all = seq![
        "TARGETS"@,
        "TIMESTAMP"@,
        "MULTIPLE"@,
        "SAVE_TARGETS"@,
        "DELETE"@,
        "INCR"@,
    ];
    assert(all[0] == "TARGETS"@ && all[1] == "TIMESTAMP"@ && all[2] == "MULTIPLE"@);
    assert(all[3] == "SAVE_TARGETS"@ && all[4] == "DELETE"@ && all[5] == "INCR"@);
}

/// What stands for content keeps its place: one more type of an offer adds
/// itself at the end, unless it is protocol machinery. An offer with such
/// machinery, and no other, is a mirror of the X11 side.
pub proof fn content_leaves_out_protocol_names(types: Seq<Seq<char>>, more: Seq<char>)
    ensures
        content(Seq::empty()).len() == 0,
        is_protocol(more) ==> content(types.push(more)) == content(types),
        !is_protocol(more) ==> content(types.push(more)) == content(types).push(more),
        !is_mirror(Seq::empty()),
        is_mirror(types.push(more)) <==> is_mirror(types) || is_protocol(more),
{
    reveal(Seq::filter);
    assert(types.push(more).drop_last() =~= types);
    let all = types.push(more);
    if is_mirror(types) {
        let i = choose|i: int| 0 <= i < types.len() && is_protocol(#[trigger] types[i]);
        assert(is_protocol(all[i]));
    }
    if is_protocol(more) {
        assert(is_protocol(all[types.len() as int]));
    }
    if is_mirror(all) && !is_protocol(more) {
        let i = choose|i: int| 0 <= i < all.len() && is_protocol(#[trigger] all[i]);
        assert(is_protocol(types[i]));
    }
}

/// A type stands for content exactly when the offer has it and it is no
/// protocol machinery; an offer without machinery is content throughout.
pub proof fn content_is_the_rest(types: Seq<Seq<char>>, name: Seq<char>)
    ensures
        content(types).contains(name) <==> types.contains(name) && !is_protocol(name),
        !is_mirror(types) <==> content(types) == types,
    decreases types.len(),
{
    if types.len() == 0 {
        content_leaves_out_protocol_names(types, name);
        assert(content(types) =~= types);
        assert(types =~= Seq::empty());
    } else {
        let front = types.drop_last();
        let last = types.last();
        content_leaves_out_protocol_names(front, last);
        content_is_the_rest(front, name);
        content_is_no_longer(front);
        assert(types =~= front.push(last));
        let (a, b) = (content(front), content(types));
        if front.contains(name) {
            let i = choose|i: int| 0 <= i < front.len() && front[i] == name;
            assert(types[i] == name);
        }
        if types.contains(name) && name != last {
            let i = choose|i: int| 0 <= i < types.len() && types[i] == name;
            assert(front[i] == name);
        }
        if last == name {
            assert(types[types.len() - 1] == name);
        }
        if !is_protocol(last) {
            assert(b == a.push(last));
            assert(b[a.len() as int] == last);
            if a.contains(name) {
                let i = choose|i: int| 0 <= i < a.len() && a[i] == name;
                assert(b[i] == name);
            }
            if b.contains(name) && name != last {
                let i = choose|i: int| 0 <= i < b.len() && b[i] == name;
                assert(a[i] == name);
            }
            if b == types {
                assert(a =~= b.drop_last());
            }
        }
    }
}

proof fn content_is_no_longer(types: Seq<Seq<char>>)
    ensures
        content(types).len() <= types.len(),
    decreases types.len(),
{
    if types.len() > 0 {
        let front = types.drop_last();
        content_leaves_out_protocol_names(front, types.last());
        content_is_no_longer(front);
        assert(types =~= front.push(types.last()));
    } else {
        content_leaves_out_protocol_names(types, seq![]);
        assert(types =~= Seq::empty());
    }
}

/// Exactly six names mean plain text.
pub proof fn six_names_are_plain_text(name: Seq<char>)
    ensures
        plain_text(name) <==> seq![
            "UTF8_STRING"@,
            "STRING"@,
            "TEXT"@,
            "text/plain"@,
            "text/plain;charset=utf-8"@,
            "text/plain;charset=UTF-8"@,
        ].contains(name),
{
    let all = seq![
        "UTF8_STRING"@,
        "STRING"@,
        "TEXT"@,
        "text/plain"@,
        "text/plain;charset=utf-8"@,
        "text/plain;charset=UTF-8"@,
    ];
    assert(all[0] == "UTF8_STRING"@ && all[1] == "STRING"@ && all[2] == "TEXT"@);
    assert(all[3] == "text/plain"@ && all[4] == "text/plain;charset=utf-8"@ && all[5]
        == "text/plain;charset=UTF-8"@);
}

/// The text type that is read is one that the offer has, and the offer has
/// none of those that are better: UTF-8 by its full name, then as X11 names
/// it, then text of no stated encoding, then the two legacy names.
pub proof fn the_best_text_is_read(types: Seq<Seq<char>>, i: int)
    requires
        0 <= i < 5,
    ensures
        ({
            let order = seq![
                "text/plain;charset=utf-8"@,
                "UTF8_STRING"@,
                "text/plain"@,
                "TEXT"@,
                "STRING"@,
            ];
            &&& preferred_text(types) matches Some(t) ==> types.contains(t) && order.contains(t)
            &&& types.contains(order[i]) ==> preferred_text(types) is Some
            &&& types.contains(order[i]) && (forall|j: int|
                0 <= j < i ==> !types.contains(#[trigger] order[j])) ==> preferred_text(types)
                == Some(order[i])
        }),
{
    let order = seq![
        "text/plain;charset=utf-8"@,
        "UTF8_STRING"@,
        "text/plain"@,
        "TEXT"@,
        "STRING"@,
    ];
    assert(order[0] == "text/plain;charset=utf-8"@ && order[1] == "UTF8_STRING"@);
    assert(order[2] == "text/plain"@ && order[3] == "TEXT"@ && order[4] == "STRING"@);
    if forall|j: int| 0 <= j < i ==> !types.contains(#[trigger] order[j]) {
        assert(i > 0 ==> !types.contains(order[0]));
        assert(i > 1 ==> !types.contains(order[1]));
        assert(i > 2 ==> !types.contains(order[2]));
        assert(i > 3 ==> !types.contains(order[3]));
    }
}

/// What each transform does to bytes. The identity leaves them alone. One puts
/// the line `copy` in front. The other takes the line `copy` or `cut` away
/// from the front, and leaves bytes without such a line alone.
pub proof fn transforms_edit_one_line(data: Seq<u8>)
    ensures
        transformed(Transform::Identity, data) == data,
        transformed(Transform::PrependCopyHeader, data) == seq![
            'c' as u8,
            'o' as u8,
            'p' as u8,
            'y' as u8,
            10u8,
        ] + data,
        transformed(
            Transform::StripCopyHeader,
            seq!['c' as u8, 'o' as u8, 'p' as u8, 'y' as u8, 10u8] + data,
        ) == data,
        transformed(
            Transform::StripCopyHeader,
            seq!['c' as u8, 'u' as u8, 't' as u8, 10u8] + data,
        ) == data,
        !seq!['c' as u8, 'o' as u8, 'p' as u8, 'y' as u8, 10u8].is_prefix_of(data) && !seq![
            'c' as u8,
            'u' as u8,
            't' as u8,
            10u8,
        ].is_prefix_of(data) ==> transformed(Transform::StripCopyHeader, data) == data,
{
    let copy = seq!['c' as u8, 'o' as u8, 'p' as u8, 'y' as u8, 10u8];
    let cut = seq!['c' as u8, 'u' as u8, 't' as u8, 10u8];
    assert(copy =~= copy_header());
    assert(cut =~= cut_header());
    assert(copy.is_prefix_of(copy + data));
    assert((copy + data).skip(5) =~= data);
    assert(cut.is_prefix_of(cut + data));
    assert((cut + data)[1] == 'u' as u8);
    assert(copy[1] == 'o' as u8);
    assert(!copy.is_prefix_of(cut + data)) by {
        if copy.is_prefix_of(cut + data) {
            assert(copy[1] == (cut + data)[1]);
        }
    }
    assert((cut + data).skip(4) =~= data);
}

/// A Wayland offer of files lacks one of the two list formats: that one is
/// offered on the X11 side too, and read from the format that the offer has,
/// with the action line put in front or taken away. Nothing else is made up.
pub proof fn only_the_missing_file_format_is_made_up(offered: Seq<Seq<char>>)
    ensures
        offered.contains("text/uri-list"@) && !offered.contains("x-special/gnome-copied-files"@)
            ==> synthesized(offered) == seq![
            (
                "x-special/gnome-copied-files"@,
                "text/uri-list"@,
                Transform::PrependCopyHeader,
            ),
        ],
        !offered.contains("text/uri-list"@) && offered.contains("x-special/gnome-copied-files"@)
            ==> synthesized(offered) == seq![
            (
                "text/uri-list"@,
                "x-special/gnome-copied-files"@,
                Transform::StripCopyHeader,
            ),
        ],
        offered.contains("text/uri-list"@) == offered.contains("x-special/gnome-copied-files"@)
            ==> synthesized(offered).len() == 0,
{
}

/// The marks that other programs set go by these names.
pub proof fn well_known_names()
    ensures
        KDE_PASSWORD_HINT@ == "x-kde-passwordManagerHint"@,
        URI_LIST@ == "text/uri-list"@,
        GNOME_COPIED_FILES@ == "x-special/gnome-copied-files"@,
        QT_IMAGE@ == "application/x-qt-image"@,
{
}

/// Dropping repetitions keeps each value where it first stands.
pub proof fn repetitions_are_dropped(s: Seq<Seq<char>>, more: Seq<char>)
    ensures
        distinct(Seq::empty()).len() == 0,
        distinct(s).no_duplicates(),
        distinct(s).contains(more) <==> s.contains(more),
        distinct(s.push(more)) == (if s.contains(more) {
            distinct(s)
        } else {
            distinct(s).push(more)
        }),
{
    distinct_keeps(s);
    assert(s.push(more).drop_last() =~= s);
}

/// What an X11 owner's targets are advertised as, type by type: the standard
/// text types where any target is plain text; every other target under its
/// own name, except protocol machinery and a Qt image beside a URI list; a
/// URI list for a list of copied files. Nothing else is advertised.
pub proof fn what_is_advertised(targets: Seq<Seq<char>>, name: Seq<char>)
    ensures
        advertised(targets).contains(name) <==> {
            ||| (exists|i: int| 0 <= i < targets.len() && plain_text(#[trigger] targets[i]))
                && seq![
                "text/plain;charset=utf-8"@,
                "text/plain"@,
                "UTF8_STRING"@,
                "TEXT"@,
                "STRING"@,
            ].contains(name)
            ||| targets.contains(name) && !is_protocol(name) && !plain_text(name) && !(name
                == "application/x-qt-image"@ && targets.contains("text/uri-list"@))
            ||| name == "text/uri-list"@ && targets.contains("x-special/gnome-copied-files"@)
        },
{
    advertised_contains(targets, name);
    names_do_not_overlap(name);
    names_do_not_overlap(URI_LIST@);
    names_do_not_overlap(GNOME_COPIED_FILES@);
    let listed = targets.contains(URI_LIST@);
    if exists|i: int|
        0 <= i < targets.len() && forwarded_as(#[trigger] targets[i], listed).contains(name) {
        let i = choose|i: int|
            0 <= i < targets.len() && forwarded_as(#[trigger] targets[i], listed).contains(name);
        assert(targets.contains(targets[i]));
        let row = forwarded_as(targets[i], listed);
        assert(name == targets[i] || (name == URI_LIST@ && targets[i] == GNOME_COPIED_FILES@));
    }
    if targets.contains(name) && !is_protocol(name) && !plain_text(name) && !(name == QT_IMAGE@
        && listed) {
        other_types_pass_verbatim(targets, name);
    }
    if name == URI_LIST@ && targets.contains(GNOME_COPIED_FILES@) {
        files_are_offered_as_uri_list(targets);
    }
}

/// One more target of an X11 owner, other than a URI list, changes what is
/// advertised by itself alone. Plain text brings the text types to the front,
/// once. Another target comes last, once; copied files bring a URI list with
/// them, before themselves.
pub proof fn targets_are_advertised_in_order(targets: Seq<Seq<char>>, more: Seq<char>)
    requires
        more != "text/uri-list"@,
    ensures
        advertised(Seq::empty()).len() == 0,
        is_protocol(more) ==> advertised(targets.push(more)) == advertised(targets),
        plain_text(more) && (exists|i: int|
            0 <= i < targets.len() && plain_text(#[trigger] targets[i])) ==> advertised(
            targets.push(more),
        ) == advertised(targets),
        plain_text(more) && !(exists|i: int|
            0 <= i < targets.len() && plain_text(#[trigger] targets[i])) ==> advertised(
            targets.push(more),
        ) == seq![
            "text/plain;charset=utf-8"@,
            "text/plain"@,
            "UTF8_STRING"@,
            "TEXT"@,
            "STRING"@,
        ] + advertised(targets),
        !is_protocol(more) && !plain_text(more) && targets.contains(more) ==> advertised(
            targets.push(more),
        ) == advertised(targets),
        !is_protocol(more) && !plain_text(more) && !targets.contains(more) && more
            != "x-special/gnome-copied-files"@ ==> advertised(targets.push(more)) == (if more
            == "application/x-qt-image"@ && targets.contains("text/uri-list"@) {
            advertised(targets)
        } else {
            advertised(targets).push(more)
        }),
        more == "x-special/gnome-copied-files"@ && !targets.contains(more) ==> advertised(
            targets.push(more),
        ) == (if targets.contains("text/uri-list"@) {
            advertised(targets).push(more)
        } else {
            advertised(targets).push("text/uri-list"@).push(more)
        }),
{
    let after = targets.push(more);
    let listed = targets.contains(URI_LIST@);
    assert(after.contains(URI_LIST@) == listed) by {
        if listed {
            let i = choose|i: int| 0 <= i < targets.len() && targets[i] == URI_LIST@;
            assert(after[i] == URI_LIST@);
        }
        if after.contains(URI_LIST@) {
            let i = choose|i: int| 0 <= i < after.len() && after[i] == URI_LIST@;
            assert(targets[i] == URI_LIST@);
        }
    }
    assert(after.drop_last() =~= targets);
    names_do_not_overlap(more);
    names_do_not_overlap(GNOME_COPIED_FILES@);
    names_do_not_overlap(URI_LIST@);
    assert(offers_text(after) == (offers_text(targets) || plain_text(more))) by {
        if offers_text(targets) {
            let j = choose|j: int| 0 <= j < targets.len() && plain_text(#[trigger] targets[j]);
            assert(plain_text(after[j]));
        }
        if plain_text(more) {
            assert(plain_text(after[targets.len() as int]));
        }
        if offers_text(after) && !plain_text(more) {
            let j = choose|j: int| 0 <= j < after.len() && plain_text(#[trigger] after[j]);
            assert(plain_text(targets[j]));
        }
    }
    assert(!offers_text(Seq::<Seq<char>>::empty()));
    assert(advertised(Seq::empty()) =~= seq![]) by {
        assert(Seq::<Seq<char>>::empty() + forwarded(Seq::empty(), false) =~= seq![]);
        assert(!Seq::<Seq<char>>::empty().contains(URI_LIST@));
    }
    let head = if offers_text(targets) {
        text_set()
    } else {
        seq![]
    };
    let tail = forwarded(targets, listed);
    let row = forwarded_as(more, listed);
    let all = head + tail;
    assert(forwarded(after, listed) == tail + row);
    if plain_text(more) {
        assert(row =~= seq![]);
        assert(tail + row =~= tail);
        if !offers_text(targets) {
            assert(all =~= tail);
            forwarded_holds_no_text(targets, listed);
            text_set_is_distinct();
            distinct_appends(text_set(), tail);
        }
    } else {
        assert(head + (tail + row) =~= all + row);
        distinct_keeps(all);
        forwarded_contains(targets, listed, more);
        if row.len() == 0 {
            assert(all + row =~= all);
        } else if row.len() == 1 {
            assert(all + row =~= all.push(row[0]));
            repetitions_are_dropped(all, row[0]);
            all_contains(head, tail, more);
            head_holds_only_text(head, more);
            row_is_new_or_not(targets, listed, more);
        } else {
            assert(all + row =~= all.push(URI_LIST@).push(more));
            repetitions_are_dropped(all, URI_LIST@);
            repetitions_are_dropped(all.push(URI_LIST@), more);
            all_contains(head, tail, more);
            all_contains(head, tail, URI_LIST@);
            head_holds_only_text(head, more);
            head_holds_only_text(head, URI_LIST@);
            forwarded_contains(targets, listed, URI_LIST@);
            row_is_new_or_not(targets, listed, more);
            assert(all.push(URI_LIST@).contains(more) == all.contains(more)) by {
                let longer = all.push(URI_LIST@);
                if all.contains(more) {
                    let i = choose|i: int| 0 <= i < all.len() && all[i] == more;
                    assert(longer[i] == more);
                }
                if longer.contains(more) {
                    let i = choose|i: int| 0 <= i < longer.len() && longer[i] == more;
                    assert(all[i] == more);
                }
            }
        }
    }
}

/// A target contributes its own name exactly where the owner has it.
proof fn row_is_new_or_not(targets: Seq<Seq<char>>, listed: bool, more: Seq<char>)
    requires
        listed == targets.contains(URI_LIST@),
        more != URI_LIST@,
        !is_protocol(more),
        !plain_text(more),
        !(more == QT_IMAGE@ && listed),
    ensures
        forwarded(targets, listed).contains(more) <==> targets.contains(more),
        more == GNOME_COPIED_FILES@ && !listed ==> (forwarded(targets, listed).contains(URI_LIST@)
            <==> targets.contains(more)),
{
    forwarded_contains(targets, listed, more);
    forwarded_contains(targets, listed, URI_LIST@);
    names_do_not_overlap(GNOME_COPIED_FILES@);
    names_do_not_overlap(URI_LIST@);
    if targets.contains(more) {
        let i = choose|i: int| 0 <= i < targets.len() && targets[i] == more;
        let row = forwarded_as(targets[i], listed);
        assert(row[row.len() - 1] == more);
        assert(row.contains(more));
        if more == GNOME_COPIED_FILES@ && !listed {
            assert(row[0] == URI_LIST@);
            assert(row.contains(URI_LIST@));
        }
    }
    if forwarded(targets, listed).contains(more) {
        let i = choose|i: int|
            0 <= i < targets.len() && forwarded_as(#[trigger] targets[i], listed).contains(more);
        assert(targets[i] == more);
    }
    if more == GNOME_COPIED_FILES@ && !listed && forwarded(targets, listed).contains(URI_LIST@) {
        let i = choose|i: int|
            0 <= i < targets.len() && forwarded_as(#[trigger] targets[i], listed).contains(URI_LIST@);
        assert(targets[i] != URI_LIST@);
        assert(targets[i] == more);
    }
}

proof fn all_contains(a: Seq<Seq<char>>, b: Seq<Seq<char>>, x: Seq<char>)
    ensures
        (a + b).contains(x) <==> a.contains(x) || b.contains(x),
{
    if a.contains(x) {
        let i = choose|i: int| 0 <= i < a.len() && a[i] == x;
        assert((a + b)[i] == x);
    }
    if b.contains(x) {
        let i = choose|i: int| 0 <= i < b.len() && b[i] == x;
        assert((a + b)[a.len() + i] == x);
    }
    if (a + b).contains(x) {
        let i = choose|i: int| 0 <= i < (a + b).len() && (a + b)[i] == x;
        if i < a.len() {
            assert(a[i] == x);
        } else {
            assert(b[i - a.len()] == x);
        }
    }
}

proof fn head_holds_only_text(head: Seq<Seq<char>>, x: Seq<char>)
    requires
        head == text_set() || head.len() == 0,
        !plain_text(x),
    ensures
        !head.contains(x),
{
}

proof fn forwarded_holds_no_text(targets: Seq<Seq<char>>, listed: bool)
    ensures
        forall|i: int|
            0 <= i < forwarded(targets, listed).len() ==> !plain_text(
                #[trigger] forwarded(targets, listed)[i],
            ),
{
    let tail = forwarded(targets, listed);
    assert forall|i: int| 0 <= i < tail.len() implies !plain_text(#[trigger] tail[i]) by {
        assert(tail.contains(tail[i]));
        forwarded_contains(targets, listed, tail[i]);
        let k = choose|k: int|
            0 <= k < targets.len() && forwarded_as(#[trigger] targets[k], listed).contains(tail[i]);
        assert(tail[i] == targets[k] || tail[i] == URI_LIST@);
        names_do_not_overlap(URI_LIST@);
    }
}

/// Behind the text types, dropping repetitions is as without them.
proof fn distinct_appends(a: Seq<Seq<char>>, b: Seq<Seq<char>>)
    requires
        a == text_set(),
        forall|i: int| 0 <= i < b.len() ==> !plain_text(#[trigger] b[i]),
    ensures
        distinct(a + b) == a + distinct(b),
    decreases b.len(),
{
    text_set_is_distinct();
    if b.len() == 0 {
        assert(a + b =~= a);
        assert(distinct(b) =~= seq![]);
        assert(a + distinct(b) =~= a);
    } else {
        let front = b.drop_last();
        assert forall|i: int| 0 <= i < front.len() implies !plain_text(#[trigger] front[i]) by {
            assert(front[i] == b[i]);
        }
        distinct_appends(a, front);
        assert((a + b).drop_last() =~= a + front);
        assert((a + b).last() == b.last());
        assert(!plain_text(b[b.len() - 1]));
        all_contains(a, distinct(front), b.last());
        head_holds_only_text(a, b.last());
        if !distinct(front).contains(b.last()) {
            assert((a + distinct(front)).push(b.last()) =~= a + distinct(front).push(b.last()));
        }
    }
}

/// The judgements on names and lists are those that are stated of them.
pub proof fn names_are_judged_as_stated(
    name: &str,
    types: &[String],
    protocol: bool,
    plain: bool,
    mirror: bool,
    sensitive: bool,
    picked: Option<&'static str>,
)
    requires
        call_ensures(is_protocol_target, (name,), protocol),
        call_ensures(is_plain_text, (name,), plain),
        call_ensures(is_x11_mirror, (types,), mirror),
        call_ensures(is_sensitive, (types,), sensitive),
        call_ensures(pick_text, (types,), picked),
    ensures
        protocol <==> is_protocol(name@),
        plain <==> plain_text(name@),
        mirror <==> exists|i: int| 0 <= i < types@.len() && is_protocol(#[trigger] types@[i]@),
        sensitive <==> exists|i: int|
            0 <= i < types@.len() && #[trigger] types@[i]@ == "x-kde-passwordManagerHint"@,
        picked is Some <==> preferred_text(text::texts(types@)) is Some,
        picked is Some ==> preferred_text(text::texts(types@)) == Some(picked->0@),
{
    let list = text::texts(types@);
    if mirror {
        let i = choose|i: int| 0 <= i < list.len() && is_protocol(#[trigger] list[i]);
        assert(is_protocol(types@[i]@));
    }
    if exists|i: int| 0 <= i < types@.len() && is_protocol(#[trigger] types@[i]@) {
        let i = choose|i: int| 0 <= i < types@.len() && is_protocol(#[trigger] types@[i]@);
        assert(is_protocol(list[i]));
    }
    if sensitive {
        let i = choose|i: int| 0 <= i < list.len() && list[i] == KDE_PASSWORD_HINT@;
        assert(types@[i]@ == "x-kde-passwordManagerHint"@);
    }
    if exists|i: int| 0 <= i < types@.len() && #[trigger] types@[i]@ == "x-kde-passwordManagerHint"@ {
        let i = choose|i: int|
            0 <= i < types@.len() && #[trigger] types@[i]@ == "x-kde-passwordManagerHint"@;
        assert(list[i] == KDE_PASSWORD_HINT@);
    }
}

/// The lists that are made of lists are those that are stated of them, entry by
/// entry.
pub proof fn lists_are_made_as_stated(
    types: &[String],
    kept: Vec<String>,
    made_up: Vec<(String, String, Transform)>,
    told: (Vec<String>, Vec<(String, String, Transform)>),
    i: int,
)
    requires
        call_ensures(content_types, (types,), kept),
        call_ensures(synthesized_x11_targets, (types,), made_up),
        call_ensures(x2w_translate, (types,), told),
    ensures
        ({
            let list = text::texts(types@);
            &&& kept@.len() == content(list).len()
            &&& 0 <= i < kept@.len() ==> kept@[i]@ == content(list)[i]
            &&& made_up@.len() == synthesized(list).len()
            &&& 0 <= i < made_up@.len() ==> (made_up@[i].0@, made_up@[i].1@, made_up@[i].2)
                == synthesized(list)[i]
            &&& told.0@.len() == advertised(list).len()
            &&& 0 <= i < told.0@.len() ==> told.0@[i]@ == advertised(list)[i]
            &&& told.1@.len() == read_plans(list).len()
            &&& 0 <= i < told.1@.len() ==> (told.1@[i].0@, told.1@[i].1@, told.1@[i].2)
                == read_plans(list)[i]
        }),
{
    let list = text::texts(types@);
    assert(text::texts(kept@).len() == kept@.len());
    assert(rows(made_up@).len() == made_up@.len());
    assert(text::texts(told.0@).len() == told.0@.len());
    assert(rows(told.1@).len() == told.1@.len());
    if 0 <= i < kept@.len() {
        assert(text::texts(kept@)[i] == kept@[i]@);
    }
    if 0 <= i < made_up@.len() {
        assert(rows(made_up@)[i] == (made_up@[i].0@, made_up@[i].1@, made_up@[i].2));
    }
    if 0 <= i < told.0@.len() {
        assert(text::texts(told.0@)[i] == told.0@[i]@);
    }
    if 0 <= i < told.1@.len() {
        assert(rows(told.1@)[i] == (told.1@[i].0@, told.1@[i].1@, told.1@[i].2));
    }
}

} // verus!
