use clipferry::mime::{
    content_types, is_plain_text, is_protocol_target, is_sensitive, is_x11_mirror, pick_text,
    synthesized_x11_targets, x2w_translate, Transform, GNOME_COPIED_FILES, KDE_PASSWORD_HINT,
    QT_IMAGE, URI_LIST, X2W_TEXT_MIMES,
};

fn owned(list: &[&str]) -> Vec<String> {
    list.iter().map(|s| (*s).to_owned()).collect()
}

#[test]
fn prefers_utf8_mime() {
    let mimes = owned(&["image/png", "text/plain", "text/plain;charset=utf-8"]);
    assert_eq!(pick_text(&mimes), Some("text/plain;charset=utf-8"));
}

#[test]
fn falls_back_to_legacy_names() {
    assert_eq!(
        pick_text(&owned(&["UTF8_STRING", "image/png"])),
        Some("UTF8_STRING")
    );
    assert_eq!(pick_text(&owned(&["STRING"])), Some("STRING"));
}

#[test]
fn none_for_non_text_offers() {
    assert_eq!(pick_text(&owned(&["image/png", "text/html"])), None);
    assert_eq!(pick_text(&[]), None);
}

#[test]
fn uri_list_synthesizes_gnome_target() {
    let extra = synthesized_x11_targets(&owned(&["text/uri-list", "text/plain"]));
    assert_eq!(
        extra,
        vec![(
            GNOME_COPIED_FILES.to_owned(),
            URI_LIST.to_owned(),
            Transform::PrependCopyHeader
        )]
    );
    // Already offered: nothing to synthesize.
    assert!(synthesized_x11_targets(&owned(&["text/uri-list", GNOME_COPIED_FILES])).is_empty());
    assert!(synthesized_x11_targets(&owned(&["image/png"])).is_empty());
}

#[test]
fn gnome_only_offer_synthesizes_uri_list() {
    assert_eq!(
        synthesized_x11_targets(&owned(&[GNOME_COPIED_FILES])),
        vec![(
            URI_LIST.to_owned(),
            GNOME_COPIED_FILES.to_owned(),
            Transform::StripCopyHeader
        )]
    );
}

#[test]
fn x2w_collapses_text_and_drops_protocol_atoms() {
    let (adv, plans) = x2w_translate(&owned(&["TARGETS", "TIMESTAMP", "UTF8_STRING", "STRING"]));
    assert_eq!(adv, owned(&X2W_TEXT_MIMES));
    assert!(plans.is_empty());
}

#[test]
fn x2w_gnome_synthesizes_uri_list() {
    let (adv, plans) = x2w_translate(&owned(&[GNOME_COPIED_FILES]));
    assert_eq!(adv, owned(&[URI_LIST, GNOME_COPIED_FILES]));
    assert_eq!(
        plans,
        vec![(
            URI_LIST.to_owned(),
            GNOME_COPIED_FILES.to_owned(),
            Transform::StripCopyHeader
        )]
    );
    // Owner already offers uri-list: no synthesis needed.
    let (adv, plans) = x2w_translate(&owned(&[GNOME_COPIED_FILES, URI_LIST]));
    assert!(plans.is_empty());
    assert!(adv.contains(&URI_LIST.to_owned()));
    assert!(adv.contains(&GNOME_COPIED_FILES.to_owned()));
}

#[test]
fn x2w_qt_image_quirk_prefers_uri_list() {
    let (adv, _) = x2w_translate(&owned(&[QT_IMAGE, URI_LIST]));
    assert!(!adv.contains(&QT_IMAGE.to_owned()));
    assert!(adv.contains(&URI_LIST.to_owned()));
    // Without a uri-list the Qt image passes through verbatim.
    let (adv, _) = x2w_translate(&owned(&[QT_IMAGE]));
    assert!(adv.contains(&QT_IMAGE.to_owned()));
}

#[test]
fn x2w_passes_unknown_types_once() {
    let (adv, plans) = x2w_translate(&owned(&[
        "image/png",
        "text/html",
        "image/png",
        "application/x-odd",
        "INCR",
    ]));
    assert_eq!(adv, owned(&["image/png", "text/html", "application/x-odd"]));
    assert!(plans.is_empty());
}

#[test]
fn x2w_puts_text_first() {
    let (adv, _) = x2w_translate(&owned(&["text/html", "text/plain;charset=UTF-8"]));
    assert_eq!(
        adv,
        owned(&[
            "text/plain;charset=utf-8",
            "text/plain",
            "UTF8_STRING",
            "TEXT",
            "STRING",
            "text/html"
        ])
    );
}

#[test]
fn sensitive_detection() {
    assert!(is_sensitive(&owned(&["text/plain", KDE_PASSWORD_HINT])));
    assert!(!is_sensitive(&owned(&["text/plain"])));
}

#[test]
fn protocol_names_fingerprint_a_mirror() {
    assert!(is_x11_mirror(&owned(&["image/png", "TIMESTAMP"])));
    assert!(is_x11_mirror(&owned(&["TARGETS"])));
    assert!(!is_x11_mirror(&owned(&["image/png", "STRING"])));
    assert!(!is_x11_mirror(&[]));
    assert!(is_protocol_target("SAVE_TARGETS"));
    assert!(!is_protocol_target("targets"));
    assert_eq!(
        content_types(&owned(&["MULTIPLE", "image/png", "DELETE", "text/html"])),
        owned(&["image/png", "text/html"])
    );
}

#[test]
fn html_is_not_plain_text() {
    assert!(is_plain_text("TEXT"));
    assert!(is_plain_text("text/plain;charset=UTF-8"));
    assert!(!is_plain_text("text/html"));
    assert!(!is_plain_text("text/plain;charset=latin1"));
}
