use std::time::{Duration, Instant};

use clipferry::action::Action;
use clipferry::app::{App, SnapshotMsg, X11Event};
use clipferry::cli::{Options, SyncMode};
use clipferry::mime::{Transform, KDE_PASSWORD_HINT};
use clipferry::payload::{PayloadRope, Snapshot};
use clipferry::selection::{
    is_within_echo_window, OwnX11Claim, SendPlan, MIRROR_ECHO_WINDOW_NS,
};
use clipferry::transfer::Conv;
use clipferry::wayland::Offer;
use clipferry::x11::{Atoms, SelectionRequest, ATOM, INTEGER, NONE, PRIMARY, STRING, X11};
use clipferry::SelKind;

const WIN: u32 = 7;
const WM: u32 = 8;
const APP: u32 = 9;
const CLIPBOARD: u32 = 100;

fn mimes(list: &[&str]) -> Vec<String> {
    list.iter().map(|s| (*s).to_owned()).collect()
}

fn claim_now(list: &[&str]) -> OwnX11Claim {
    OwnX11Claim {
        at: Instant::now(),
        mime_types: mimes(list),
    }
}

/// An instant far enough back that the echo window has expired.
fn aged_out() -> Instant {
    let window = Duration::from_nanos(u64::try_from(MIRROR_ECHO_WINDOW_NS).unwrap());
    Instant::now()
        .checked_sub(window + Duration::from_millis(1))
        .expect("clock far enough past boot to predate the echo window")
}

/// A backstop claim on X11 for an `image/png` offer that Xwayland republishes
/// onto Wayland right away is no new copy.
#[test]
fn own_claim_mirrored_back_is_an_echo() {
    assert!(claim_now(&["image/png"]).is_echo(&mimes(&["image/png"])));
}

/// Translation drops protocol targets, so the mirror usually comes back as a
/// strict subset of what was advertised.
#[test]
fn echo_may_be_a_subset_of_the_claim() {
    let claim = claim_now(&["text/plain;charset=utf-8", "text/html", "STRING"]);
    assert!(claim.is_echo(&mimes(&["text/html"])));
}

/// The mirror may carry `TIMESTAMP` from the X11 target list.
#[test]
fn satellite_mirror_re_exports_timestamp() {
    assert!(claim_now(&["image/png"]).is_echo(&mimes(&["image/png", "TIMESTAMP"])));
    let claim = claim_now(&["text/plain;charset=utf-8", "STRING", "text/plain"]);
    assert!(claim.is_echo(&mimes(&["TIMESTAMP", "STRING", "text/plain"])));
}

/// A fingerprinted mirror is identified by what it is, not when it arrived.
#[test]
fn fingerprinted_mirror_is_an_echo_past_the_window() {
    let claim = OwnX11Claim {
        at: aged_out(),
        mime_types: mimes(&["image/png"]),
    };
    assert!(claim.is_echo(&mimes(&["image/png", "TIMESTAMP"])));
}

/// A mirror of nothing but protocol machinery has no content to match.
#[test]
fn protocol_only_offer_is_never_an_echo() {
    assert!(!claim_now(&["image/png"]).is_echo(&mimes(&["TARGETS", "TIMESTAMP"])));
}

/// A real copy that adds a type the claim never advertised is no echo.
#[test]
fn superset_offer_is_a_real_copy() {
    let claim = claim_now(&["image/png"]);
    assert!(!claim.is_echo(&mimes(&["image/png", "text/uri-list"])));
}

/// Past the window an identical offer without fingerprint is a genuine
/// re-copy.
#[test]
fn identical_offer_after_the_window_is_a_real_copy() {
    let claim = OwnX11Claim {
        at: aged_out(),
        mime_types: mimes(&["image/png"]),
    };
    assert!(!claim.is_echo(&mimes(&["image/png"])));
}

/// An empty offer must never match.
#[test]
fn empty_offer_is_never_an_echo() {
    assert!(!claim_now(&["image/png"]).is_echo(&[]));
}

fn x11() -> X11 {
    let atoms = Atoms {
        clipboard: CLIPBOARD,
        targets: 101,
        timestamp: 102,
        multiple: 103,
        incr: 104,
        utf8_string: 105,
        text: 106,
        clipferry: 107,
        clipferry_targets: 108,
        clipferry_targets_primary: 109,
    };
    X11::new(WIN, atoms, 65_536, (5, 0))
}

fn running(options: &Options) -> App {
    let mut app = App::new(x11(), Some(WM), options);
    app.start();
    app
}

fn offer(id: u64, list: &[&str]) -> Option<Offer> {
    Some(Offer {
        id,
        mime_types: mimes(list),
    })
}

fn owner(selection: u32, owner: u32) -> X11Event {
    X11Event::SelectionOwner {
        selection,
        owner,
        set_owner: owner != NONE,
    }
}

fn request(target: u32) -> X11Event {
    X11Event::SelectionRequest(SelectionRequest {
        time: 1,
        requestor: 50,
        selection: CLIPBOARD,
        target,
        property: 60,
    })
}

fn snapshot(epoch: u64, entries: &[(&str, &[u8])]) -> Snapshot {
    let mut snapshot = Snapshot::new(epoch);
    for (mime, data) in entries {
        snapshot.collect((*mime).to_owned(), PayloadRope::read_to_end(data, None));
    }
    snapshot
}

/// Names every action by its kind.
fn kinds(actions: &[Action]) -> Vec<&'static str> {
    actions
        .iter()
        .map(|a| match a {
            Action::DestroyOffer(_) => "destroy-offer",
            Action::DestroySource { .. } => "destroy-source",
            Action::ArmGapTimer(_) => "arm-gap",
            Action::ArmPrimaryTimer(_) => "arm-primary",
            Action::InternTargets { .. } => "intern",
            Action::Capture { .. } => "capture",
            Action::ClaimX11(_) => "claim-x11",
            Action::ReclaimX11(_) => "reclaim-x11",
            Action::ReleaseX11 { .. } => "release-x11",
            Action::FetchTargets(_) => "fetch-targets",
            Action::ReadTargets { .. } => "read-targets",
            Action::ClaimWayland { .. } => "claim-wayland",
            Action::EagerFetch { .. } => "eager-fetch",
            Action::ReleaseWayland { .. } => "release-wayland",
            Action::Notify(n) => {
                if n.property == NONE {
                    "refuse"
                } else {
                    "notify"
                }
            }
            Action::ReplyAtoms { .. } => "reply-atoms",
            Action::ServeSnapshot { .. } => "serve-snapshot",
            Action::ReadOffer { .. } => "read-offer",
            Action::LockSnapshot(_) => "lock",
            Action::Stop => "stop",
        })
        .collect()
}

/// A bridge that claimed the X11 side for an offer of `image/png` and
/// `text/plain`, with the capture still in flight.
fn claiming() -> App {
    let mut app = running(&Options::default());
    let acts = app.on_wayland_selection(SelKind::Clipboard, offer(1, &["image/png", "text/plain"]));
    assert_eq!(kinds(&acts), ["arm-gap"]);
    let acts = app.fire_gap_fill(SelKind::Clipboard);
    assert_eq!(kinds(&acts), ["intern"]);
    assert!(matches!(
        &acts[0],
        Action::InternTargets { epoch: 1, names, .. } if *names == mimes(&["image/png", "text/plain"])
    ));
    let acts = app.on_targets_interned(SelKind::Clipboard, 1, &[201, 202]);
    assert_eq!(kinds(&acts), ["capture", "claim-x11"]);
    app.on_capture_started(SelKind::Clipboard, 1);
    app.on_x11_claimed(SelKind::Clipboard, WIN, 4321);
    app
}

fn captured() -> App {
    let mut app = claiming();
    let acts = app.on_snapshot(SnapshotMsg {
        kind: SelKind::Clipboard,
        snapshot: snapshot(1, &[("image/png", b"png"), ("text/plain", b"text")]),
    });
    assert_eq!(kinds(&acts), ["lock"]);
    app
}

#[test]
fn wayland_copy_is_claimed_after_the_gap_window() {
    let mut app = claiming();
    // The capture is in flight: the paste is held, and answered by it.
    assert!(app.handle_x11_event(&request(201)).is_empty());
    let acts = app.on_snapshot(SnapshotMsg {
        kind: SelKind::Clipboard,
        snapshot: snapshot(1, &[("image/png", b"png")]),
    });
    assert_eq!(kinds(&acts), ["lock", "serve-snapshot"]);
    assert!(matches!(
        &acts[1],
        Action::ServeSnapshot { reply, .. }
            if reply.mime == "image/png" && reply.property == 60 && reply.reply_type == 201
    ));
    // A type that was not captured is read from the live offer.
    assert_eq!(kinds(&app.handle_x11_event(&request(202))), ["read-offer"]);
}

#[test]
fn targets_and_timestamp_are_served() {
    let mut app = captured();
    let acts = app.handle_x11_event(&request(101));
    assert!(matches!(
        &acts[..],
        [Action::ReplyAtoms { type_: ATOM, values, .. }]
            if *values == vec![101, 102, 105, 106, STRING, 201, 202]
    ));
    let acts = app.handle_x11_event(&request(102));
    assert!(matches!(
        &acts[..],
        [Action::ReplyAtoms { type_: INTEGER, values, .. }] if *values == vec![4321]
    ));
}

#[test]
fn text_targets_convert() {
    let mut app = captured();
    for target in [105, 106] {
        let acts = app.handle_x11_event(&request(target));
        assert!(matches!(
            &acts[..],
            [Action::ServeSnapshot { reply, .. }]
                if reply.mime == "text/plain" && reply.reply_type == 105
                    && reply.conversion == Conv::Verbatim
        ));
    }
    let acts = app.handle_x11_event(&request(STRING));
    assert!(matches!(
        &acts[..],
        [Action::ServeSnapshot { reply, .. }]
            if reply.reply_type == STRING && reply.conversion == Conv::Utf8ToLatin1
    ));
}

#[test]
fn multiple_and_unadvertised_targets_are_refused() {
    let mut app = captured();
    assert_eq!(kinds(&app.handle_x11_event(&request(103))), ["refuse"]);
    assert_eq!(kinds(&app.handle_x11_event(&request(999))), ["refuse"]);
    let mut idle = running(&Options::default());
    assert_eq!(kinds(&idle.handle_x11_event(&request(101))), ["refuse"]);
    // PRIMARY is not bridged.
    let primary = X11Event::SelectionRequest(SelectionRequest {
        time: 1,
        requestor: 50,
        selection: PRIMARY,
        target: 101,
        property: 60,
    });
    assert_eq!(kinds(&app.handle_x11_event(&primary)), ["refuse"]);
}

#[test]
fn obsolete_clients_are_answered_through_the_target() {
    let mut app = captured();
    let acts = app.handle_x11_event(&X11Event::SelectionRequest(SelectionRequest {
        time: 1,
        requestor: 50,
        selection: CLIPBOARD,
        target: 102,
        property: NONE,
    }));
    assert!(matches!(&acts[..], [Action::ReplyAtoms { property: 102, .. }]));
}

#[test]
fn content_survives_its_source() {
    let mut app = captured();
    let acts = app.on_wayland_selection(SelKind::Clipboard, None);
    assert_eq!(kinds(&acts), ["destroy-offer"]);
    assert_eq!(kinds(&app.handle_x11_event(&request(201))), ["serve-snapshot"]);
    assert_eq!(kinds(&app.handle_x11_event(&request(105))), ["serve-snapshot"]);
}

#[test]
fn own_claim_coming_back_changes_nothing() {
    let mut app = captured();
    let acts = app.on_wayland_selection(
        SelKind::Clipboard,
        offer(2, &["image/png", "text/plain", "TIMESTAMP"]),
    );
    assert!(matches!(&acts[..], [Action::DestroyOffer(2)]));
    assert_eq!(kinds(&app.handle_x11_event(&request(201))), ["serve-snapshot"]);
    // The bridge's own X11 claim is reported by the server, too.
    assert!(app.handle_x11_event(&owner(CLIPBOARD, WIN)).is_empty());
}

#[test]
fn recency_decides_without_a_fingerprint() {
    let mut app = captured();
    let acts = app.wayland_selection(SelKind::Clipboard, offer(2, &["image/png"]), true);
    assert!(matches!(&acts[..], [Action::DestroyOffer(2)]));
    let acts = app.wayland_selection(SelKind::Clipboard, offer(3, &["image/png"]), false);
    assert_eq!(kinds(&acts), ["destroy-offer", "arm-gap"]);
    assert!(matches!(acts[0], Action::DestroyOffer(1)));
}

#[test]
fn a_new_claim_refuses_what_was_parked() {
    let mut app = claiming();
    assert!(app.handle_x11_event(&request(201)).is_empty());
    assert!(app.handle_x11_event(&request(202)).is_empty());
    let acts = app.handle_x11_event(&X11Event::SelectionClear {
        selection: CLIPBOARD,
    });
    assert_eq!(kinds(&acts), ["refuse", "refuse"]);
    // The capture that lands late changes nothing.
    let late = SnapshotMsg {
        kind: SelKind::Clipboard,
        snapshot: snapshot(1, &[("image/png", b"png")]),
    };
    assert!(app.on_snapshot(late).is_empty());
    assert_eq!(kinds(&app.handle_x11_event(&request(201))), ["refuse"]);
}

#[test]
fn x11_answer_calls_off_the_fill() {
    let mut app = running(&Options::default());
    app.on_wayland_selection(SelKind::Clipboard, offer(1, &["image/png"]));
    assert!(app.handle_x11_event(&owner(CLIPBOARD, APP)).is_empty());
    assert!(app.fire_gap_fill(SelKind::Clipboard).is_empty());
}

#[test]
fn bridge_answer_calls_off_the_fill() {
    let mut app = running(&Options::default());
    app.on_wayland_selection(SelKind::Clipboard, offer(1, &["image/png"]));
    assert!(app.handle_x11_event(&owner(CLIPBOARD, WM)).is_empty());
    assert!(app.fire_gap_fill(SelKind::Clipboard).is_empty());
}

#[test]
fn wayland_answer_calls_off_the_fill() {
    let mut app = running(&Options::default());
    let acts = app.handle_x11_event(&owner(CLIPBOARD, APP));
    assert_eq!(kinds(&acts), ["arm-gap"]);
    assert!(app
        .on_wayland_selection(SelKind::Clipboard, offer(1, &["image/png"]))
        .is_empty());
    assert!(app.fire_gap_fill(SelKind::Clipboard).is_empty());
}

#[test]
fn mirrors_are_never_bridged() {
    let mut app = running(&Options::default());
    let acts = app.on_wayland_selection(
        SelKind::Clipboard,
        offer(1, &["image/png", "TARGETS", "TIMESTAMP"]),
    );
    assert!(matches!(&acts[..], [Action::DestroyOffer(1)]));
    assert!(app.fire_gap_fill(SelKind::Clipboard).is_empty());
}

/// Takes an X11 copy up to the Wayland claim.
fn proxying(options: &Options, names: &[&str]) -> (App, Vec<Action>) {
    let mut app = running(options);
    assert_eq!(kinds(&app.handle_x11_event(&owner(CLIPBOARD, APP))), ["arm-gap"]);
    assert_eq!(kinds(&app.fire_gap_fill(SelKind::Clipboard)), ["fetch-targets"]);
    let acts = app.handle_x11_event(&X11Event::SelectionNotify {
        requestor: WIN,
        selection: CLIPBOARD,
        target: 101,
        property: 108,
    });
    assert!(matches!(&acts[..], [Action::ReadTargets { epoch: 1, .. }]));
    let acts = app.on_targets_read(SelKind::Clipboard, 1, Some(mimes(names)));
    (app, acts)
}

#[test]
fn x11_copy_is_claimed_after_the_gap_window() {
    let (app, acts) = proxying(&Options::default(), &["TARGETS", "x-special/gnome-copied-files"]);
    assert!(matches!(
        &acts[..],
        [Action::ClaimWayland { source: 1, mime_types, .. }]
            if *mime_types == mimes(&["text/uri-list", "x-special/gnome-copied-files"])
    ));
    let plan = app.on_source_send(SelKind::Clipboard, 1, "text/uri-list");
    assert!(matches!(
        plan,
        SendPlan::Read(read)
            if read.plan
                == Some((
                    "x-special/gnome-copied-files".to_owned(),
                    Transform::StripCopyHeader
                ))
    ));
    let plan = app.on_source_send(SelKind::Clipboard, 1, "x-special/gnome-copied-files");
    assert!(matches!(plan, SendPlan::Read(read) if read.plan.is_none()));
    assert!(matches!(
        app.on_source_send(SelKind::Clipboard, 2, "text/uri-list"),
        SendPlan::Superseded
    ));
}

#[test]
fn own_wayland_claim_is_ignored() {
    let (mut app, _) = proxying(&Options::default(), &["image/png"]);
    let acts = app.on_wayland_selection(SelKind::Clipboard, offer(5, &["image/png"]));
    assert!(matches!(&acts[..], [Action::DestroyOffer(5)]));
    // A real takeover cancels the source first.
    let acts = app.on_source_cancelled(SelKind::Clipboard, 1);
    assert!(matches!(&acts[..], [Action::DestroySource { source: 1, .. }]));
    let acts = app.on_wayland_selection(SelKind::Clipboard, offer(6, &["image/png"]));
    assert_eq!(kinds(&acts), ["arm-gap"]);
}

#[test]
fn an_x11_owner_that_exits_releases_wayland() {
    let (mut app, _) = proxying(&Options::default(), &["image/png"]);
    let acts = app.handle_x11_event(&owner(CLIPBOARD, NONE));
    assert!(matches!(&acts[..], [Action::ReleaseWayland { source: 1, .. }]));
}

#[test]
fn eager_snapshots_survive_their_owner() {
    let options = Options {
        sync_mode: SyncMode::Eager,
        ..Options::default()
    };
    let (mut app, acts) = proxying(&options, &["image/png"]);
    assert_eq!(kinds(&acts), ["claim-wayland", "eager-fetch"]);
    assert!(matches!(
        &acts[1],
        Action::EagerFetch { epoch: 1, reads, .. } if reads.len() == 1 && reads[0].mime == "image/png"
    ));
    app.on_snapshot(SnapshotMsg {
        kind: SelKind::Clipboard,
        snapshot: snapshot(1, &[("image/png", b"png")]),
    });
    assert!(app.handle_x11_event(&owner(CLIPBOARD, NONE)).is_empty());
    let plan = app.on_source_send(SelKind::Clipboard, 1, "image/png");
    assert!(matches!(
        plan,
        SendPlan::Snapshot(s) if s.get("image/png").unwrap().to_contiguous().as_slice() == b"png"
    ));
}

#[test]
fn secrets_are_skipped_on_request() {
    let skip = Options {
        skip_sensitive: true,
        ..Options::default()
    };
    let mut app = running(&skip);
    let acts =
        app.on_wayland_selection(SelKind::Clipboard, offer(1, &["text/plain", KDE_PASSWORD_HINT]));
    assert_eq!(kinds(&acts), ["destroy-offer"]);
    assert!(app.fire_gap_fill(SelKind::Clipboard).is_empty());
    let (_, acts) = proxying(&skip, &["UTF8_STRING", KDE_PASSWORD_HINT]);
    assert!(acts.is_empty());
    // Without the flag secrets are bridged, hint and all.
    let (_, acts) = proxying(&Options::default(), &["text/html", KDE_PASSWORD_HINT]);
    assert!(matches!(
        &acts[..],
        [Action::ClaimWayland { mime_types, .. }]
            if *mime_types == mimes(&["text/html", KDE_PASSWORD_HINT])
    ));
}

#[test]
fn unreadable_targets_claim_nothing() {
    let mut app = running(&Options::default());
    app.handle_x11_event(&owner(CLIPBOARD, APP));
    app.fire_gap_fill(SelKind::Clipboard);
    let refused = X11Event::SelectionNotify {
        requestor: WIN,
        selection: CLIPBOARD,
        target: 101,
        property: NONE,
    };
    assert!(app.handle_x11_event(&refused).is_empty());
    // Nothing is awaited any more.
    assert!(app.handle_x11_event(&refused).is_empty());
    assert!(app
        .on_targets_read(SelKind::Clipboard, 1, None)
        .is_empty());
}

#[test]
fn aggressive_claims_come_at_once() {
    let options = Options {
        aggressive_claims: true,
        ..Options::default()
    };
    let mut app = running(&options);
    let acts = app.on_wayland_selection(SelKind::Clipboard, offer(1, &["image/png"]));
    assert_eq!(kinds(&acts), ["intern"]);
    app.on_targets_interned(SelKind::Clipboard, 1, &[201]);
    app.on_x11_claimed(SelKind::Clipboard, WIN, 1);
    // Another bridge's claim is taken back once, a real application's never.
    let acts = app.handle_x11_event(&owner(CLIPBOARD, WM));
    assert_eq!(kinds(&acts), ["reclaim-x11"]);
    app.on_x11_reclaimed(SelKind::Clipboard, WIN, 2);
    assert!(app.handle_x11_event(&owner(CLIPBOARD, WM)).is_empty());
    let acts = app.handle_x11_event(&owner(CLIPBOARD, APP));
    assert_eq!(kinds(&acts), ["fetch-targets"]);
}

#[test]
fn a_claim_race_that_is_lost_owns_nothing() {
    let mut app = running(&Options::default());
    app.on_wayland_selection(SelKind::Clipboard, offer(1, &["image/png"]));
    app.fire_gap_fill(SelKind::Clipboard);
    app.on_targets_interned(SelKind::Clipboard, 1, &[201]);
    app.on_x11_claimed(SelKind::Clipboard, APP, 1);
    assert_eq!(kinds(&app.handle_x11_event(&request(201))), ["refuse"]);
}

#[test]
fn startup_fills_only_the_missing_side() {
    let fresh = || App::new(x11(), Some(WM), &Options::default());
    // Both sides owned: nothing is touched.
    let mut app = fresh();
    assert!(app
        .on_wayland_selection(SelKind::Clipboard, offer(1, &["image/png"]))
        .is_empty());
    assert_eq!(app.probe_x11_startup(), vec![SelKind::Clipboard]);
    assert!(app.on_startup_owner(SelKind::Clipboard, APP).is_empty());
    assert!(app.fire_gap_fill(SelKind::Clipboard).is_empty());
    // Only Wayland owned.
    let mut app = fresh();
    app.on_wayland_selection(SelKind::Clipboard, offer(1, &["image/png"]));
    assert_eq!(kinds(&app.on_startup_owner(SelKind::Clipboard, NONE)), ["intern"]);
    // Only X11 owned.
    let mut app = fresh();
    assert_eq!(
        kinds(&app.on_startup_owner(SelKind::Clipboard, APP)),
        ["fetch-targets"]
    );
    // Neither, or only another bridge.
    let mut app = fresh();
    assert!(app.on_startup_owner(SelKind::Clipboard, NONE).is_empty());
    assert!(app.on_startup_owner(SelKind::Clipboard, WM).is_empty());
}

#[test]
fn primary_changes_are_debounced() {
    let options = Options {
        primary: true,
        ..Options::default()
    };
    let mut app = running(&options);
    assert_eq!(
        app.probe_x11_startup(),
        vec![SelKind::Clipboard, SelKind::Primary]
    );
    let acts = app.on_wayland_primary(offer(1, &["text/plain"]));
    assert!(matches!(&acts[..], [Action::ArmPrimaryTimer(1)]));
    let acts = app.handle_x11_event(&owner(PRIMARY, APP));
    assert!(matches!(&acts[..], [Action::ArmPrimaryTimer(2)]));
    assert!(app.fire_primary_debounce(1).is_empty());
    assert_eq!(kinds(&app.fire_primary_debounce(2)), ["fetch-targets"]);
    assert!(app.fire_primary_debounce(2).is_empty());
    let acts = app.handle_x11_event(&owner(PRIMARY, NONE));
    assert!(matches!(&acts[..], [Action::ArmPrimaryTimer(3)]));
    assert!(app.primary_debounced(3, false).is_empty());
}

#[test]
fn primary_is_opt_in() {
    let mut app = running(&Options::default());
    let acts = app.on_wayland_primary(offer(3, &["text/plain"]));
    assert!(matches!(&acts[..], [Action::DestroyOffer(3)]));
    assert!(app.handle_x11_event(&owner(PRIMARY, APP)).is_empty());
    assert_eq!(app.kind_for_selection(PRIMARY), None);
    assert_eq!(app.kind_for_selection(CLIPBOARD), Some(SelKind::Clipboard));
}

#[test]
fn the_first_failure_is_the_reason() {
    let mut app = running(&Options::default());
    assert!(app.can_advance());
    assert!(app.exit().is_none());
    assert_eq!(kinds(&app.fatal("first".to_owned())), ["stop"]);
    assert_eq!(kinds(&app.on_wayland_finished()), ["stop"]);
    assert_eq!(app.exit().map(String::as_str), Some("first"));
    let mut app = running(&Options::default());
    app.on_wayland_finished();
    assert_eq!(
        app.exit().map(String::as_str),
        Some("compositor finished our data-control device")
    );
}

#[test]
fn options_become_settings() {
    let options = Options {
        transfer_timeout: 30,
        eager_max_size: None,
        ..Options::default()
    };
    let mut app = App::new(x11(), None, &options);
    assert_eq!(app.env().transfer_timeout, Some(30));
    assert_eq!(app.env().eager_max, None);
    assert!(!app.env().running);
    app.start();
    assert!(app.env().running);
    let app = App::new(x11(), None, &Options::default());
    assert_eq!(app.env().transfer_timeout, None);
}

#[test]
fn repeated_types_share_a_target() {
    let mut app = running(&Options::default());
    app.on_wayland_selection(SelKind::Clipboard, offer(1, &["image/png", "image/png"]));
    app.fire_gap_fill(SelKind::Clipboard);
    app.on_targets_interned(SelKind::Clipboard, 1, &[201, 201]);
    app.on_x11_claimed(SelKind::Clipboard, WIN, 4321);
    let acts = app.handle_x11_event(&request(101));
    assert!(matches!(
        &acts[..],
        [Action::ReplyAtoms { values, .. }] if *values == [101, 102, 201]
    ));
    assert_eq!(kinds(&app.handle_x11_event(&request(201))), ["read-offer"]);
}

#[test]
fn the_echo_window_is_ten_milliseconds() {
    assert!(is_within_echo_window(0));
    assert!(is_within_echo_window(10_000_000));
    assert!(!is_within_echo_window(10_000_001));
}
