use clipferry::broker::{Broker, Command, Event, State};

fn text_offer() -> Event {
    Event::WaylandSelection {
        mime_types: vec!["text/plain;charset=utf-8".into()],
    }
}

fn image() -> Vec<String> {
    vec!["image/png".to_owned()]
}

#[test]
fn wayland_selection_claims_x11() {
    let mut b = Broker::new();
    let cmds = b.handle(text_offer());
    assert_eq!(cmds, vec![Command::ClaimX11 { epoch: 1 }]);
    assert!(matches!(b.state(), State::WaylandApp { .. }));
}

#[test]
fn cleared_releases_only_when_proxying() {
    let mut b = Broker::new();
    assert_eq!(b.handle(Event::WaylandCleared), vec![]);
    b.handle(text_offer());
    assert_eq!(b.handle(Event::WaylandCleared), vec![Command::ReleaseX11]);
    assert_eq!(b.state(), &State::Idle);
}

#[test]
fn x11_lost_stands_down_without_commands() {
    let mut b = Broker::new();
    b.handle(text_offer());
    assert_eq!(b.handle(Event::X11Lost), vec![]);
    assert_eq!(b.state(), &State::Idle);
    // A later clear of the (already superseded) Wayland side is a no-op.
    assert_eq!(b.handle(Event::WaylandCleared), vec![]);
}

#[test]
fn epoch_increments_per_transition_and_claims_are_counted() {
    // Every legitimate new selection must produce exactly one claim.
    let mut b = Broker::new();
    let mut claims = 0;
    for _ in 0..100 {
        claims += b
            .handle(text_offer())
            .iter()
            .filter(|c| matches!(c, Command::ClaimX11 { .. }))
            .count();
    }
    assert_eq!(claims, 100);
    assert_eq!(b.epoch(), 100);
}

#[test]
fn identical_content_still_counts_as_new_claim() {
    // Loop prevention is by identity, not content: two copies of the same
    // MIME list are two claims.
    let mut b = Broker::new();
    assert_eq!(b.handle(text_offer()), vec![Command::ClaimX11 { epoch: 1 }]);
    assert_eq!(b.handle(text_offer()), vec![Command::ClaimX11 { epoch: 2 }]);
}

#[test]
fn x11_selection_claims_wayland_once_targets_are_known() {
    let mut b = Broker::default();
    assert_eq!(
        b.handle(Event::X11Selection),
        vec![Command::FetchX11Targets { epoch: 1 }]
    );
    assert_eq!(
        b.handle(Event::X11Targets {
            epoch: 1,
            mime_types: image()
        }),
        vec![Command::ClaimWayland {
            epoch: 1,
            mime_types: image()
        }]
    );
    assert_eq!(
        b.state(),
        &State::X11App {
            mime_types: image()
        }
    );
    assert_eq!(b.epoch(), 1);
}

#[test]
fn late_targets_are_ignored() {
    let mut b = Broker::new();
    b.handle(Event::X11Selection);
    b.handle(text_offer());
    assert_eq!(
        b.handle(Event::X11Targets {
            epoch: 1,
            mime_types: image()
        }),
        vec![]
    );
    assert!(matches!(b.state(), State::WaylandApp { .. }));
    assert_eq!(b.epoch(), 2);
}

#[test]
fn an_owner_without_targets_releases_wayland() {
    let mut b = Broker::new();
    b.handle(Event::X11Selection);
    assert_eq!(
        b.handle(Event::X11Targets {
            epoch: 1,
            mime_types: vec![]
        }),
        vec![Command::ReleaseWayland]
    );
    assert_eq!(b.state(), &State::Idle);
}

#[test]
fn x11_cleared_counts_only_while_proxied() {
    let mut b = Broker::new();
    b.handle(text_offer());
    assert_eq!(b.handle(Event::X11Cleared), vec![]);
    assert_eq!(b.epoch(), 1);
    b.handle(Event::X11Selection);
    assert_eq!(b.handle(Event::X11Cleared), vec![Command::ReleaseWayland]);
    assert_eq!(b.epoch(), 3);
}

#[test]
fn alternating_copies_make_one_claim_each() {
    let mut b = Broker::new();
    let mut x11 = 0;
    let mut wayland = 0;
    for i in 0..50u64 {
        for c in b.handle(text_offer()) {
            x11 += usize::from(matches!(c, Command::ClaimX11 { .. }));
        }
        let mut commands = b.handle(Event::X11Selection);
        commands.extend(b.handle(Event::X11Targets {
            epoch: 2 * i + 2,
            mime_types: image(),
        }));
        for c in commands {
            wayland += usize::from(matches!(c, Command::ClaimWayland { .. }));
        }
    }
    assert_eq!((x11, wayland), (50, 50));
    assert_eq!(b.epoch(), 100);
}
