use clipferry::x11::{
    check_window, intern_mimes, owner_class, target_atoms, target_names, vendor, wait,
    wm_check_window, Atoms, Backoff, PropertyNotify, Wait, PRIMARY, X11,
};
use clipferry::SelKind;

fn atoms() -> Atoms {
    Atoms {
        clipboard: 100,
        targets: 101,
        timestamp: 102,
        multiple: 103,
        incr: 104,
        utf8_string: 105,
        text: 106,
        clipferry: 107,
        clipferry_targets: 108,
        clipferry_targets_primary: 109,
    }
}

#[test]
fn selections_have_their_atoms() {
    let x11 = X11::new(7, atoms(), 16_384, (5, 0));
    assert_eq!(x11.selection_atom(SelKind::Clipboard), 100);
    assert_eq!(x11.selection_atom(SelKind::Primary), PRIMARY);
    assert_eq!(x11.targets_property(SelKind::Clipboard), 108);
    assert_eq!(x11.targets_property(SelKind::Primary), 109);
    assert_eq!(x11.max_payload, 15_360);
    assert_eq!(X11::new(7, atoms(), 1000, (5, 0)).max_payload, 0);
}

#[test]
fn server_time_comes_from_our_own_append() {
    let x11 = X11::new(7, atoms(), 16_384, (5, 0));
    let event = PropertyNotify {
        window: 7,
        atom: 107,
        time: 1234,
        deleted: false,
    };
    assert_eq!(x11.server_time(&event), Some(1234));
    assert_eq!(x11.server_time(&PropertyNotify { window: 8, ..event }), None);
    assert_eq!(x11.server_time(&PropertyNotify { atom: 108, ..event }), None);
}

#[test]
fn waiting_ends_after_two_seconds() {
    assert_eq!(wait(0), Wait::Sleep(1));
    assert_eq!(wait(2000), Wait::Sleep(1));
    assert_eq!(wait(2001), Wait::GiveUp);
}

#[test]
fn backoff_doubles_up_to_five_seconds() {
    let mut backoff = Backoff::new();
    let delays: Vec<(u64, bool)> = (0..6).map(|_| backoff.failed()).collect();
    assert_eq!(
        delays,
        vec![
            (500, true),
            (1000, false),
            (2000, false),
            (4000, false),
            (5000, false),
            (5000, false)
        ]
    );
}

#[test]
fn targets_are_words_of_a_property() {
    let mut value = Vec::new();
    for atom in [4_u32, 70_000, 31] {
        value.extend_from_slice(&atom.to_ne_bytes());
    }
    value.push(1);
    assert_eq!(target_atoms(32, value.clone()), vec![4, 70_000, 31]);
    assert_eq!(target_atoms(8, value), Vec::<u32>::new());
}

#[test]
fn the_check_window_is_a_window() {
    assert_eq!(
        wm_check_window(32, 0x0040_0001_u32.to_ne_bytes().to_vec()),
        Some(0x0040_0001)
    );
    assert_eq!(wm_check_window(32, vec![0, 0, 0, 0]), None);
    assert_eq!(wm_check_window(32, vec![]), None);
    assert_eq!(wm_check_window(8, vec![1, 0, 0, 0]), None);
    assert_eq!(check_window(&Some(vec![9, 10])), Some(9));
    assert_eq!(check_window(&None), None);
}

#[test]
fn the_class_is_the_last_part() {
    assert_eq!(owner_class(b"xterm\0XTerm\0").as_deref(), Some("XTerm"));
    assert_eq!(owner_class(b"only").as_deref(), Some("only"));
    assert_eq!(owner_class(b"only\0\0").as_deref(), Some("only"));
    assert_eq!(owner_class(b"").as_deref(), None);
    assert_eq!(owner_class(b"\0\0").as_deref(), None);
    assert_eq!(owner_class(b"a\0b\xff").as_deref(), Some("b\u{fffd}"));
}

#[test]
fn names_without_an_answer_are_left_out() {
    let replies = [Some(b"TARGETS".to_vec()), None, Some(b"image/png".to_vec())];
    assert_eq!(target_names(&replies), vec!["TARGETS", "image/png"]);
    assert_eq!(vendor(b"The X.Org Foundation"), "The X.Org Foundation");
}

#[test]
fn legacy_text_names_are_not_interned() {
    let types: Vec<String> = ["UTF8_STRING", "text/html", "TEXT", "STRING", "image/png"]
        .iter()
        .map(|s| (*s).to_owned())
        .collect();
    assert_eq!(intern_mimes(&types), vec!["text/html", "image/png"]);
}
