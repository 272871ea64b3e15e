use clipferry::mime::Transform;
use clipferry::payload::{PayloadRope, RopeReader, SecretBytes};
use clipferry::transfer::{
    announced_size, apply_transform, candidates, heard, increment_limit, is_stalled,
    latin1_to_utf8, notify,
    read_cap, serve, utf8_to_latin1, AskStep, Conv, HeadTransform, Heard, IncrSender, IncrStep,
    PasteReply, PropertyReader, ReadStep, ReadTarget, Refusal, Serve, StreamedPaste, X2wRequest,
    X2wTransfer,
};
use clipferry::x11::{PropertyNotify, SelectionNotify, SelectionRequest, NONE};
use clipferry::SelKind;

fn request() -> SelectionRequest {
    SelectionRequest {
        time: 11,
        requestor: 22,
        selection: 33,
        target: 44,
        property: 55,
    }
}

fn reply(conversion: Conv, transform: Transform) -> PasteReply {
    PasteReply {
        kind: SelKind::Clipboard,
        mime: "text/plain".to_owned(),
        req: request(),
        property: 55,
        reply_type: 44,
        conversion,
        transform,
        timeout: None,
    }
}

fn secret(bytes: &[u8]) -> SecretBytes {
    SecretBytes::new(bytes.to_vec())
}

#[test]
fn latin1_passthrough_and_replacement() {
    let out = utf8_to_latin1("héllo € wörld".as_bytes()).unwrap();
    assert_eq!(out.as_slice(), b"h\xe9llo ? w\xf6rld");
}

#[test]
fn latin1_rejects_invalid_utf8() {
    assert!(utf8_to_latin1(&[0xFF, 0xFE]).is_none());
}

#[test]
fn latin1_to_utf8_round_trips_through_utf8_to_latin1() {
    let latin1: Vec<u8> = (1..=0xFF).collect();
    let utf8 = latin1_to_utf8(&latin1);
    assert!(std::str::from_utf8(utf8.as_slice()).is_ok());
    let back = utf8_to_latin1(utf8.as_slice()).unwrap();
    assert_eq!(back.as_slice(), &latin1[..]);
}

#[test]
fn latin1_is_converted_byte_by_byte() {
    assert_eq!(latin1_to_utf8(b"\xe9!").as_slice(), "é!".as_bytes());
    assert_eq!(latin1_to_utf8(b"").len(), 0);
    assert_eq!(utf8_to_latin1(b"").unwrap().len(), 0);
}

#[test]
fn answers_echo_the_request() {
    let expected = |property| SelectionNotify {
        time: 11,
        requestor: 22,
        selection: 33,
        target: 44,
        property,
    };
    assert_eq!(notify(&request(), Some(55)), expected(55));
    assert_eq!(notify(&request(), None), expected(NONE));
}

#[test]
fn transforms_apply_to_whole_payloads() {
    let strip = |d: &[u8]| apply_transform(Transform::StripCopyHeader, d).as_slice().to_vec();
    assert_eq!(strip(b"copy\nfile:///a"), b"file:///a");
    assert_eq!(strip(b"cut\nfile:///a"), b"file:///a");
    assert_eq!(strip(b"file:///a"), b"file:///a");
    assert_eq!(strip(b"cut"), b"cut");
    assert_eq!(
        apply_transform(Transform::PrependCopyHeader, b"file:///a").as_slice(),
        b"copy\nfile:///a"
    );
    assert_eq!(apply_transform(Transform::Identity, b"x").as_slice(), b"x");
}

#[test]
fn transforms_apply_to_pieces() {
    for (transform, source) in [
        (Transform::StripCopyHeader, &b"copy\nfile:///a\nfile:///b"[..]),
        (Transform::StripCopyHeader, &b"cut\nf"[..]),
        (Transform::StripCopyHeader, &b"cut\n"[..]),
        (Transform::StripCopyHeader, &b"cop"[..]),
        (Transform::PrependCopyHeader, &b"file:///a"[..]),
        (Transform::Identity, &b"anything"[..]),
    ] {
        let whole = apply_transform(transform, source).as_slice().to_vec();
        for size in 1..=source.len() {
            let mut head = HeadTransform::new(transform);
            let mut out = Vec::new();
            for piece in source.chunks(size) {
                out.extend_from_slice(head.push(secret(piece)).as_slice());
            }
            out.extend_from_slice(head.finish().as_slice());
            assert_eq!(out, whole);
        }
    }
}

#[test]
fn small_pastes_are_written_at_once() {
    let outcome = PayloadRope::read_to_end(b"hello", read_cap(Conv::Verbatim, 100));
    let served = serve(&reply(Conv::Verbatim, Transform::Identity), outcome, 100);
    assert!(matches!(served, Serve::Property(data) if data.as_slice() == b"hello"));
}

#[test]
fn string_pastes_are_latin1() {
    let outcome = PayloadRope::read_to_end("né".as_bytes(), read_cap(Conv::Utf8ToLatin1, 100));
    let served = serve(&reply(Conv::Utf8ToLatin1, Transform::Identity), outcome, 100);
    assert!(matches!(served, Serve::Property(data) if data.as_slice() == b"n\xe9"));
    let outcome = PayloadRope::read_to_end(&[0xff], None);
    let served = serve(&reply(Conv::Utf8ToLatin1, Transform::Identity), outcome, 100);
    assert!(matches!(served, Serve::Refuse(Refusal::NotText)));
}

#[test]
fn an_empty_source_is_refused() {
    for conversion in [Conv::Verbatim, Conv::Utf8ToLatin1] {
        let outcome = PayloadRope::read_to_end(b"", None);
        let served = serve(&reply(conversion, Transform::PrependCopyHeader), outcome, 100);
        assert!(matches!(served, Serve::Refuse(Refusal::EmptySource)));
    }
}

#[test]
fn large_pastes_are_streamed() {
    let data = vec![5_u8; 70_000];
    let outcome = PayloadRope::read_to_end(&data, read_cap(Conv::Verbatim, 1000));
    let Serve::Stream { first, rest } =
        serve(&reply(Conv::Verbatim, Transform::Identity), outcome, 1000)
    else {
        panic!("expected Stream")
    };
    assert_eq!(first.len(), 65536);
    assert!(rest.is_some());
    // A whole payload that outgrows the limit in its transform is streamed too.
    let outcome = PayloadRope::read_to_end(&data[..10], Some(10));
    let Serve::Stream { first, rest } =
        serve(&reply(Conv::Verbatim, Transform::PrependCopyHeader), outcome, 10)
    else {
        panic!("expected Stream")
    };
    assert_eq!(first.len(), 15);
    assert!(rest.is_none());
}

#[test]
fn increments_wait_for_the_requestor() {
    let deleted = PropertyNotify {
        window: 7,
        atom: 9,
        time: 0,
        deleted: true,
    };
    let mut sender = IncrSender::new(7, 9, 4);
    assert!(matches!(sender.step(), IncrStep::AwaitDelete));
    assert!(!sender.deleted(&PropertyNotify { atom: 8, ..deleted }));
    assert!(!sender.deleted(&PropertyNotify {
        deleted: false,
        ..deleted
    }));
    assert!(sender.deleted(&deleted));
    assert!(matches!(sender.step(), IncrStep::NeedData));
    let mut received = Vec::new();
    let mut pieces = vec![&b"hello"[..], &b" increments"[..]].into_iter();
    let mut closed = 0;
    loop {
        match sender.step() {
            IncrStep::NeedData => match pieces.next() {
                Some(piece) => sender.offer(secret(piece)),
                None => sender.end(),
            },
            IncrStep::Write(bytes) => {
                assert!(!bytes.is_empty() && bytes.len() <= 4);
                received.extend_from_slice(bytes.as_slice());
            }
            IncrStep::AwaitDelete => assert!(sender.deleted(&deleted)),
            IncrStep::Close => closed += 1,
            IncrStep::Done => break,
        }
    }
    assert_eq!(received, b"hello increments");
    assert_eq!(closed, 1);
}

#[test]
fn sizes_are_announced_as_far_as_they_fit() {
    assert_eq!(announced_size(70_000), 70_000);
    assert_eq!(announced_size(usize::MAX), u32::MAX);
}

#[test]
fn increments_fit_one_property_write() {
    assert_eq!(increment_limit(0), None);
    assert_eq!(increment_limit(1), Some(1));
    assert_eq!(increment_limit(65_536), Some(65_536));
    assert_eq!(increment_limit(16_000_000), Some(65_536));
}

#[test]
fn silence_is_bounded() {
    assert!(!is_stalled(false, None, 2000));
    assert!(is_stalled(false, None, 2001));
    assert!(!is_stalled(true, None, 1_000_000));
    assert!(is_stalled(true, Some(30), 30_001));
    assert!(!is_stalled(true, Some(30), 30_000));
    assert!(is_stalled(false, Some(1), 1001));
    assert!(is_stalled(false, Some(30), 2001));
    assert!(!is_stalled(true, Some(u64::MAX), u64::MAX));
}

#[test]
fn text_is_read_as_utf8_first() {
    let ask = |mime: &str, plan| {
        candidates(&X2wRequest {
            kind: SelKind::Clipboard,
            mime: mime.to_owned(),
            plan,
            timeout: None,
        })
    };
    let text = ask("text/plain", None);
    assert_eq!(text.len(), 2);
    assert!(matches!(text[0].target, ReadTarget::Utf8String) && !text[0].from_latin1);
    assert!(matches!(text[1].target, ReadTarget::LegacyString) && text[1].from_latin1);
    let legacy = ask("STRING", None);
    assert!(!legacy[1].from_latin1);
    let image = ask("image/png", None);
    assert_eq!(image.len(), 1);
    assert!(matches!(&image[0].target, ReadTarget::Named(n) if n == "image/png"));
    let planned = ask(
        "text/uri-list",
        Some((
            "x-special/gnome-copied-files".to_owned(),
            Transform::StripCopyHeader,
        )),
    );
    assert!(
        matches!(&planned[0].target, ReadTarget::Named(n) if n == "x-special/gnome-copied-files")
    );
    assert_eq!(planned[0].transform, Transform::StripCopyHeader);
}

#[test]
fn notifications_are_told_apart() {
    let event = SelectionNotify {
        time: 0,
        requestor: 7,
        selection: 1,
        target: 2,
        property: 3,
    };
    assert_eq!(heard(7, &event), Heard::Ready(3));
    assert_eq!(heard(8, &event), Heard::Unrelated);
    assert_eq!(
        heard(
            7,
            &SelectionNotify {
                property: NONE,
                ..event
            }
        ),
        Heard::Refused
    );
}

#[test]
fn a_property_is_read_in_pieces() {
    let (mut reader, step) = PropertyReader::begin(1, 2, 3, 10, 99, true, Transform::Identity);
    assert_eq!(step, ReadStep::Read(0));
    let (out, step) = reader.piece(secret(b"abc\xe9"), 2);
    assert_eq!(out.as_slice(), "abcé".as_bytes());
    assert_eq!(step, ReadStep::Read(1));
    let (out, step) = reader.piece(secret(b"de"), 0);
    assert_eq!(out.as_slice(), b"de");
    assert_eq!(step, ReadStep::DeleteAndFinish);
    assert_eq!(reader.finish().len(), 0);
}

#[test]
fn increments_are_read_until_an_empty_one() {
    let (mut reader, step) =
        PropertyReader::begin(1, 2, 3, 99, 99, false, Transform::StripCopyHeader);
    assert_eq!(step, ReadStep::DeleteAndAwait);
    let changed = PropertyNotify {
        window: 1,
        atom: 2,
        time: 0,
        deleted: false,
    };
    assert!(reader.arrived(&changed));
    assert!(!reader.arrived(&PropertyNotify {
        deleted: true,
        ..changed
    }));
    assert!(!reader.arrived(&PropertyNotify {
        window: 3,
        ..changed
    }));
    let mut received = Vec::new();
    for (value, expected) in [
        (&b"co"[..], ReadStep::DeleteAndAwait),
        (&b"py\nfile:///a"[..], ReadStep::DeleteAndAwait),
        (&b"/b"[..], ReadStep::DeleteAndAwait),
        (&b""[..], ReadStep::DeleteAndFinish),
    ] {
        let (out, step) = reader.piece(secret(value), 0);
        received.extend_from_slice(out.as_slice());
        assert_eq!(step, expected);
    }
    received.extend_from_slice(reader.finish().as_slice());
    assert_eq!(received, b"file:///a/b");
}

#[test]
fn streamed_pastes_send_the_transformed_source() {
    let reply = reply(Conv::Verbatim, Transform::StripCopyHeader);
    let source = b"copy\nfile:///a\nfile:///b".repeat(3000);
    let outcome = PayloadRope::read_to_end(&source[..65536], Some(100));
    let Serve::Stream { first, rest } = serve(&reply, outcome, 100) else {
        panic!("expected a stream");
    };
    let mut paste = StreamedPaste::new(22, 55, 40000, first, rest);
    let gone = PropertyNotify { window: 22, atom: 55, time: 0, deleted: true };
    let mut unread = &source[65536..];
    let mut sent: Vec<u8> = Vec::new();
    loop {
        match paste.step() {
            IncrStep::AwaitDelete => {
                let other = PropertyNotify { window: 23, ..gone };
                assert!(!paste.deleted(&other));
                assert!(matches!(paste.step(), IncrStep::AwaitDelete));
                assert!(paste.deleted(&gone));
            }
            IncrStep::NeedData => {
                let n = unread.len().min(5000);
                paste.more(secret(&unread[..n]));
                unread = &unread[n..];
            }
            IncrStep::Write(bytes) => {
                assert!(!bytes.is_empty() && bytes.len() <= 40000);
                sent.extend_from_slice(bytes.as_slice());
            }
            IncrStep::Close => {}
            IncrStep::Done => break,
        }
    }
    assert_eq!(sent, apply_transform(Transform::StripCopyHeader, &source).as_slice());
    assert_eq!(sent, &source[5..]);
}

#[test]
fn a_finished_payload_is_streamed_whole() {
    let mut paste = StreamedPaste::new(1, 2, 4, secret(b"abcdef"), None);
    let gone = PropertyNotify { window: 1, atom: 2, time: 0, deleted: true };
    assert!(paste.deleted(&gone));
    assert!(matches!(paste.step(), IncrStep::Write(b) if b.as_slice() == b"abcd"));
    assert!(paste.deleted(&gone));
    assert!(matches!(paste.step(), IncrStep::Write(b) if b.as_slice() == b"ef"));
    assert!(paste.deleted(&gone));
    assert!(matches!(paste.step(), IncrStep::Close));
    assert!(matches!(paste.step(), IncrStep::Done));
}

#[test]
fn a_refused_target_gives_way_to_the_next() {
    let asked = X2wRequest {
        kind: SelKind::Clipboard,
        mime: "text/plain;charset=utf-8".to_owned(),
        plan: None,
        timeout: None,
    };
    let mut transfer = X2wTransfer::new(&asked, 7, 8, 9);
    let heard = SelectionNotify { time: 0, requestor: 7, selection: 3, target: 4, property: NONE };
    assert!(matches!(transfer.target(), Some(ReadTarget::Utf8String)));
    let other = SelectionNotify { requestor: 9, ..heard };
    assert_eq!(transfer.answered(&other), AskStep::KeepWaiting);
    assert!(matches!(transfer.target(), Some(ReadTarget::Utf8String)));
    assert_eq!(transfer.answered(&heard), AskStep::AskNext);
    assert!(matches!(transfer.target(), Some(ReadTarget::LegacyString)));
    let ready = SelectionNotify { property: 8, ..heard };
    assert_eq!(transfer.answered(&ready), AskStep::Probe);

    // Legacy text is Latin-1 and handed on as UTF-8.
    let (mut reader, step) = transfer.probed(31, 99);
    assert_eq!(step, ReadStep::Read(0));
    let (bytes, step) = reader.piece(secret(b"h\xe9"), 0);
    assert_eq!(step, ReadStep::DeleteAndFinish);
    let mut out = bytes.as_slice().to_vec();
    out.extend_from_slice(reader.finish().as_slice());
    assert_eq!(out, "hé".as_bytes());

    let (_, step) = transfer.probed(99, 99);
    assert_eq!(step, ReadStep::DeleteAndAwait);

    assert_eq!(transfer.answered(&heard), AskStep::AskNext);
    assert!(transfer.target().is_none());
}

#[test]
fn the_first_byte_is_bounded_and_the_rest_is_not() {
    // A source that is gathered.
    let mut source = RopeReader::new(None);
    assert!(!source.is_stalled(None, 2000));
    assert!(source.is_stalled(None, 2001));
    source.advance(1);
    assert!(!source.is_stalled(None, 1_000_000));
    assert!(source.is_stalled(Some(5), 5001));

    // An owner that answers in increments.
    let (mut owner, _) = PropertyReader::begin(1, 2, 3, 99, 99, false, Transform::Identity);
    assert!(owner.is_stalled(None, 2001));
    owner.piece(secret(b"a"), 0);
    assert!(!owner.is_stalled(None, 2001));
    assert!(owner.is_stalled(Some(5), 5001));

    // A requestor that takes increments.
    let mut paste = StreamedPaste::new(1, 2, 4, secret(b"abcdef"), None);
    assert!(paste.is_stalled(None, 2001));
    let gone = PropertyNotify { window: 1, atom: 2, time: 0, deleted: true };
    assert!(paste.deleted(&gone));
    assert!(paste.is_stalled(None, 2001));
    assert!(matches!(paste.step(), IncrStep::Write(_)));
    assert!(!paste.is_stalled(None, 2001));
    assert!(paste.is_stalled(Some(5), 5001));
}

#[test]
fn transfers_end_with_their_peer() {
    let paste = StreamedPaste::new(1, 2, 4, secret(b"abcdef"), None);
    assert!(paste.is_abandoned(1));
    assert!(!paste.is_abandoned(2));
    let asked = X2wRequest {
        kind: SelKind::Clipboard,
        mime: "image/png".to_owned(),
        plan: None,
        timeout: None,
    };
    let transfer = X2wTransfer::new(&asked, 7, 8, 9);
    assert!(transfer.is_abandoned(9));
    assert!(!transfer.is_abandoned(7));
    let (reader, _) = transfer.probed(99, 99);
    assert!(reader.is_abandoned(9));
    assert!(!reader.is_abandoned(7));
}
