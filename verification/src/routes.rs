//! Which selection an event reaches, and what the bridge does with it there.

use vstd::prelude::*;

use crate::action;
use crate::action::{Action, ActionView, Env};
use crate::app;
use crate::app::{App, AppTurn, AppView, PendingView, SnapshotMsg, X11Event};
use crate::broker::{BrokerView, StateView};
use crate::cli::Options;
use crate::selection;
use crate::selection::{FillView, SelView, SendPlan, Turn};
use crate::steps;
use crate::text;
use crate::wayland;
use crate::wayland::{Offer, OfferView};
use crate::x11::{SelectionNotify, SelectionRequest, X11};
use crate::SelKind;

verus! {

/// What the options ask for is what the bridge goes by; a time limit of zero
/// means none, and the event loop does not run yet.
pub proof fn options_are_obeyed(x11: X11, wm_window: Option<u32>, options: Options)
    ensures
        ({
            let env = app::settings(x11, wm_window, options);
            &&& env.x11 == x11
            &&& env.wm_window == wm_window
            &&& !env.running
            &&& env.primary == options.primary
            &&& env.skip_sensitive == options.skip_sensitive
            &&& env.sync_mode == options.sync_mode
            &&& env.aggressive_claims == options.aggressive_claims
            &&& env.eager_max == options.eager_max_size
            &&& options.transfer_timeout == 0 ==> env.transfer_timeout is None
            &&& options.transfer_timeout > 0 ==> env.transfer_timeout == Some(
                options.transfer_timeout,
            )
        }),
{
}

/// What a step of one selection does to the bridge: that selection takes the
/// step, and everything else stays as it is.
pub proof fn a_step_moves_one_selection(app: AppView, turn: Turn)
    ensures
        app.sel(SelKind::Clipboard) == app.clipboard,
        app.sel(SelKind::Primary) == app.primary,
        app.with(SelKind::Clipboard, turn) == (AppTurn {
            app: AppView { clipboard: turn.sel, ..app },
            acts: turn.acts,
        }),
        app.with(SelKind::Primary, turn) == (AppTurn {
            app: AppView { primary: turn.sel, ..app },
            acts: turn.acts,
        }),
{
}

/// CLIPBOARD is always bridged, PRIMARY only where the options say so, and no
/// other selection ever is.
pub proof fn two_selections_are_bridged(app: AppView, selection: u32)
    ensures
        app.kind_for(selection) == Some(SelKind::Clipboard) <==> selection
            == app.env.x11.atoms.clipboard,
        app.kind_for(selection) == Some(SelKind::Primary) <==> selection == 1 && app.env.primary
            && selection != app.env.x11.atoms.clipboard,
{
}

/// At the start the owner of each bridged selection is asked for whose proxy
/// is idle, CLIPBOARD before PRIMARY.
pub proof fn idle_selections_are_probed(app: AppView)
    ensures
        ({
            let first = app.clipboard.broker.state is Idle;
            let second = app.env.primary && app.primary.broker.state is Idle;
            &&& first && second ==> app.to_probe() == seq![SelKind::Clipboard, SelKind::Primary]
            &&& first && !second ==> app.to_probe() == seq![SelKind::Clipboard]
            &&& !first && second ==> app.to_probe() == seq![SelKind::Primary]
            &&& !first && !second ==> app.to_probe().len() == 0
        }),
{
}

/// While the bridge's own data source is alive, an offer on that selection is
/// the bridge's claim coming back: it is destroyed, and nothing else happens.
pub proof fn own_data_sources_are_known(
    app: AppView,
    kind: SelKind,
    offer: Option<OfferView>,
    recent: bool,
)
    requires
        match kind {
            SelKind::Clipboard => app.clipboard.source is Some,
            SelKind::Primary => app.primary.source is Some,
        },
    ensures
        app.after_wayland_selection(kind, offer, recent) == (AppTurn {
            app,
            acts: match offer {
                Some(o) => seq![ActionView::DestroyOffer(o.id)],
                None => seq![],
            },
        }),
{
}

/// A Wayland CLIPBOARD event reaches the CLIPBOARD selection at once: a genuine
/// copy then waits there for the X11 side, with its types, and the timer of
/// that selection is set.
pub proof fn clipboard_copies_reach_the_clipboard(app: AppView, offer: OfferView, recent: bool)
    requires
        app.clipboard.source is None,
        app.env.running,
        !app.env.aggressive_claims,
        steps::is_genuine_copy(app.clipboard, app.env, offer, recent),
    ensures
        ({
            let turn = app.after_wayland_selection(SelKind::Clipboard, Some(offer), recent);
            let sel = app.clipboard;
            &&& turn.app == AppView {
                clipboard: SelView {
                    offer: Some(offer),
                    wl_gen: sel.wl_gen + 1,
                    wayland_owned: true,
                    sensitive: offer.types.contains("x-kde-passwordManagerHint"@),
                    fill: Some(
                        FillView {
                            fill_x11: true,
                            wl_gen: sel.wl_gen + 1,
                            x11_gen: sel.x11_gen,
                            types: offer.types,
                            owner: None,
                        },
                    ),
                    ..sel
                },
                ..app
            }
            &&& turn.acts == (match sel.offer {
                Some(old) => seq![ActionView::DestroyOffer(old.id)],
                None => seq![],
            }).push(ActionView::ArmGapTimer(SelKind::Clipboard))
        }),
{
    steps::every_wayland_copy_waits_its_turn(
        app.clipboard,
        app.env,
        SelKind::Clipboard,
        offer,
        recent,
    );
}

/// The same with aggressive claims: the X11 side is claimed for at once.
pub proof fn aggressive_clipboard_copies_claim(app: AppView, offer: OfferView, recent: bool)
    requires
        app.clipboard.source is None,
        app.env.running,
        app.env.aggressive_claims,
        steps::is_genuine_copy(app.clipboard, app.env, offer, recent),
    ensures
        ({
            let turn = app.after_wayland_selection(SelKind::Clipboard, Some(offer), recent);
            let sel = app.clipboard;
            &&& turn.app.clipboard.broker == BrokerView {
                state: StateView::WaylandApp(offer.types),
                epoch: sel.broker.epoch + 1,
            }
            &&& turn.app.clipboard.offer == Some(offer)
            &&& turn.app == AppView { clipboard: turn.app.clipboard, ..app }
            &&& turn.acts.last() == ActionView::InternTargets(
                SelKind::Clipboard,
                sel.broker.epoch + 1,
                selection::row_names(selection::proxy_rows(offer.types)),
            )
        }),
{
    steps::every_aggressive_wayland_copy_claims(
        app.clipboard,
        app.env,
        SelKind::Clipboard,
        offer,
        recent,
    );
}

/// A Wayland CLIPBOARD that nobody owns any more is passed on too: what was
/// proxied for its owner, and not captured, is released on the X11 side.
pub proof fn cleared_clipboards_are_released(app: AppView, recent: bool)
    requires
        app.clipboard.source is None,
        app.clipboard.broker.state is WaylandApp,
        app.clipboard.capture is None,
        app.clipboard.snapshot is None,
        app.clipboard.owned_since is Some,
    ensures
        ({
            let turn = app.after_wayland_selection(SelKind::Clipboard, None, recent);
            &&& turn.app.clipboard.broker == BrokerView {
                state: StateView::Idle,
                epoch: app.clipboard.broker.epoch + 1,
            }
            &&& turn.app.clipboard.targets.len() == 0
            &&& turn.app.clipboard.owned_since is None
            &&& turn.app == AppView { clipboard: turn.app.clipboard, ..app }
            &&& turn.acts.last() == ActionView::ReleaseX11(
                SelKind::Clipboard,
                app.clipboard.owned_since->0,
            )
        }),
{
    steps::empty_offers_clear_the_x11_side(
        app.clipboard,
        app.env,
        SelKind::Clipboard,
        None,
        recent,
    );
}

/// A Wayland PRIMARY event waits until PRIMARY settles: it takes the place of
/// what waited before it, and a timer with a new number is set. No selection
/// changes meanwhile.
pub proof fn primary_changes_wait_to_settle(app: AppView, offer: Option<OfferView>, recent: bool)
    requires
        app.env.primary,
        app.env.running,
        app.primary.source is None,
    ensures
        app.after_wayland_primary(offer, recent) == (AppTurn {
            app: AppView {
                pending: Some(PendingView::Wayland(offer)),
                primary_gen: app.primary_gen + 1,
                ..app
            },
            acts: seq![ActionView::ArmPrimaryTimer(app.primary_gen + 1)],
        }),
        app.after_wayland_selection(SelKind::Primary, offer, recent) == app.after_wayland_primary(
            offer,
            recent,
        ),
{
}

/// Where PRIMARY is not bridged its offers are destroyed, and nothing else
/// happens.
pub proof fn unbridged_primary_is_left_alone(app: AppView, offer: Option<OfferView>, recent: bool)
    requires
        !app.env.primary,
    ensures
        app.after_wayland_primary(offer, recent) == (AppTurn {
            app,
            acts: match offer {
                Some(o) => seq![ActionView::DestroyOffer(o.id)],
                None => seq![],
            },
        }),
{
}

/// A timer of an earlier PRIMARY change, or one with nothing to settle, does
/// nothing.
pub proof fn stale_primary_timers_do_nothing(app: AppView, generation: nat, recent: bool)
    requires
        generation != app.primary_gen || app.pending is None,
    ensures
        app.after_debounce(generation, recent) == (AppTurn { app, acts: seq![] }),
{
}

/// The timer of the latest PRIMARY change takes effect. A genuine Wayland copy
/// is then the live offer of PRIMARY and waits there for the X11 side with its
/// types, the gap timer of PRIMARY being set. Nothing waits to settle any more.
pub proof fn settled_primary_copies_wait_for_the_x11_side(
    app: AppView,
    offer: OfferView,
    recent: bool,
)
    requires
        app.pending == Some(PendingView::Wayland(Some(offer))),
        app.env.running,
        !app.env.aggressive_claims,
        steps::is_genuine_copy(app.primary, app.env, offer, recent),
    ensures
        ({
            let turn = app.after_debounce(app.primary_gen, recent);
            let sel = app.primary;
            &&& turn.app == AppView {
                pending: None,
                primary: SelView {
                    offer: Some(offer),
                    wl_gen: sel.wl_gen + 1,
                    wayland_owned: true,
                    sensitive: offer.types.contains("x-kde-passwordManagerHint"@),
                    fill: Some(
                        FillView {
                            fill_x11: true,
                            wl_gen: sel.wl_gen + 1,
                            x11_gen: sel.x11_gen,
                            types: offer.types,
                            owner: None,
                        },
                    ),
                    ..sel
                },
                ..app
            }
            &&& turn.acts == (match sel.offer {
                Some(old) => seq![ActionView::DestroyOffer(old.id)],
                None => seq![],
            }).push(ActionView::ArmGapTimer(SelKind::Primary))
        }),
{
    steps::every_wayland_copy_waits_its_turn(
        app.primary,
        app.env,
        SelKind::Primary,
        offer,
        recent,
    );
}

/// With aggressive claims the X11 PRIMARY is claimed for as soon as a genuine
/// Wayland copy has settled.
pub proof fn settled_primary_copies_claim(app: AppView, offer: OfferView, recent: bool)
    requires
        app.pending == Some(PendingView::Wayland(Some(offer))),
        app.env.running,
        app.env.aggressive_claims,
        steps::is_genuine_copy(app.primary, app.env, offer, recent),
    ensures
        ({
            let turn = app.after_debounce(app.primary_gen, recent);
            let sel = app.primary;
            &&& turn.app.primary.broker == BrokerView {
                state: StateView::WaylandApp(offer.types),
                epoch: sel.broker.epoch + 1,
            }
            &&& turn.app.primary.offer == Some(offer)
            &&& turn.app == AppView { pending: None, primary: turn.app.primary, ..app }
            &&& turn.acts.last() == ActionView::InternTargets(
                SelKind::Primary,
                sel.broker.epoch + 1,
                selection::row_names(selection::proxy_rows(offer.types)),
            )
        }),
{
    steps::every_aggressive_wayland_copy_claims(
        app.primary,
        app.env,
        SelKind::Primary,
        offer,
        recent,
    );
}

/// A settled PRIMARY that nobody on the Wayland side owns any more is released
/// on the X11 side, unless its content was captured.
pub proof fn settled_primary_clearing_is_passed_on(app: AppView, recent: bool)
    requires
        app.pending == Some(PendingView::Wayland(None)),
    ensures
        ({
            let turn = app.after_debounce(app.primary_gen, recent);
            let sel = app.primary;
            let captured = sel.broker.state is WaylandApp && (sel.capture is Some || sel.snapshot
                is Some);
            &&& turn.app == AppView { pending: None, primary: turn.app.primary, ..app }
            &&& captured ==> turn.app.primary == SelView {
                offer: None,
                wl_gen: sel.wl_gen + 1,
                wayland_owned: false,
                ..sel
            }
            &&& !captured ==> {
                &&& turn.app.primary.broker == BrokerView {
                    state: StateView::Idle,
                    epoch: sel.broker.epoch + 1,
                }
                &&& turn.app.primary.offer is None
                &&& !turn.app.primary.wayland_owned
            }
            &&& !captured && sel.broker.state is WaylandApp && sel.owned_since is Some
                ==> turn.acts.last() == ActionView::ReleaseX11(
                SelKind::Primary,
                sel.owned_since->0,
            )
        }),
{
    let sel = app.primary;
    if sel.broker.state is WaylandApp && (sel.capture is Some || sel.snapshot is Some) {
        steps::captured_sources_may_go(sel, app.env, SelKind::Primary, recent);
    } else {
        steps::empty_offers_clear_the_x11_side(sel, app.env, SelKind::Primary, None, recent);
    }
}

/// A settled PRIMARY that an X11 application owns is proxied: its owner is
/// asked for its targets. One that it gave up ends the proxy and the Wayland
/// claim, unless an eager snapshot holds its content.
pub proof fn settled_x11_primary_takes_effect(app: AppView, recent: bool)
    ensures
        app.pending == Some(PendingView::X11(true)) ==> {
            let turn = app.after_debounce(app.primary_gen, recent);
            &&& turn.app == AppView { pending: None, primary: turn.app.primary, ..app }
            &&& turn.app.primary == SelView {
                broker: BrokerView {
                    state: StateView::X11App(seq![]),
                    epoch: app.primary.broker.epoch + 1,
                },
                snapshot: None,
                capture: None,
                parked: seq![],
                pending_targets: Some(app.primary.broker.epoch + 1),
                ..app.primary
            }
            &&& turn.acts == selection::refusals(app.primary.parked).push(
                ActionView::FetchTargets(SelKind::Primary),
            )
        },
        app.pending == Some(PendingView::X11(false)) && app.primary.broker.state is X11App
            && app.primary.source is Some && !(app.env.sync_mode is Eager && app.primary.snapshot
            is Some) ==> {
            let turn = app.after_debounce(app.primary_gen, recent);
            &&& turn.app == AppView { pending: None, primary: turn.app.primary, ..app }
            &&& turn.app.primary.broker == BrokerView {
                state: StateView::Idle,
                epoch: app.primary.broker.epoch + 1,
            }
            &&& turn.app.primary.source is None
            &&& turn.acts.last() == ActionView::ReleaseWayland(
                SelKind::Primary,
                app.primary.source->0,
            )
        },
        app.pending == Some(PendingView::X11(false)) && (!(app.primary.broker.state is X11App) || (
        app.env.sync_mode is Eager && app.primary.snapshot is Some)) ==> app.after_debounce(
            app.primary_gen,
            recent,
        ) == (AppTurn { app: AppView { pending: None, ..app }, acts: seq![] }),
{
    steps::settled_x11_primary_is_proxied(app.primary, app.env, SelKind::Primary);
}

/// A genuine Wayland PRIMARY copy, from the event to the claim: it waits to
/// settle, then for the X11 side, and when that stays silent the X11 PRIMARY
/// is claimed for with the types of that very copy.
pub proof fn primary_copies_reach_the_x11_side(app: AppView, offer: OfferView, recent: bool)
    requires
        app.env.primary,
        app.env.running,
        !app.env.aggressive_claims,
        app.primary.source is None,
        steps::is_genuine_copy(app.primary, app.env, offer, recent),
    ensures
        ({
            let waiting = app.after_wayland_primary(Some(offer), recent).app;
            let settled = waiting.after_debounce(waiting.primary_gen, recent).app;
            let filled = settled.primary.after_gap(settled.env, SelKind::Primary);
            &&& filled.sel.broker == BrokerView {
                state: StateView::WaylandApp(offer.types),
                epoch: app.primary.broker.epoch + 1,
            }
            &&& filled.sel.offer == Some(offer)
            &&& filled.acts.last() == ActionView::InternTargets(
                SelKind::Primary,
                app.primary.broker.epoch + 1,
                selection::row_names(selection::proxy_rows(offer.types)),
            )
            &&& settled.clipboard == app.clipboard
        }),
{
    primary_changes_wait_to_settle(app, Some(offer), recent);
    let waiting = app.after_wayland_primary(Some(offer), recent).app;
    settled_primary_copies_wait_for_the_x11_side(waiting, offer, recent);
    steps::every_wayland_copy_is_claimed_for_after_the_gap(
        app.primary,
        app.env,
        SelKind::Primary,
        offer,
        recent,
    );
    steps::every_wayland_copy_waits_its_turn(
        app.primary,
        app.env,
        SelKind::Primary,
        offer,
        recent,
    );
}

/// Before the event loop runs there is no timer, so a PRIMARY change takes
/// effect at once: a genuine Wayland copy waits for the start.
pub proof fn early_primary_copies_wait_for_the_start(app: AppView, offer: OfferView, recent: bool)
    requires
        app.env.primary,
        !app.env.running,
        app.primary.source is None,
        steps::is_genuine_copy(app.primary, app.env, offer, recent),
    ensures
        ({
            let turn = app.after_wayland_primary(Some(offer), recent);
            let sel = app.primary;
            &&& turn.app == AppView {
                pending: None,
                primary_gen: app.primary_gen + 1,
                primary: SelView {
                    offer: Some(offer),
                    wl_gen: sel.wl_gen + 1,
                    wayland_owned: true,
                    sensitive: offer.types.contains("x-kde-passwordManagerHint"@),
                    fill: Some(
                        FillView {
                            fill_x11: true,
                            wl_gen: sel.wl_gen + 1,
                            x11_gen: sel.x11_gen,
                            types: offer.types,
                            owner: None,
                        },
                    ),
                    ..sel
                },
                ..app
            }
            &&& turn.acts == match sel.offer {
                Some(old) => seq![ActionView::DestroyOffer(old.id)],
                None => seq![],
            }
        }),
{
    steps::every_early_wayland_copy_waits_for_the_start(
        app.primary,
        app.env,
        SelKind::Primary,
        offer,
        recent,
    );
}

/// An X11 application that takes CLIPBOARD reaches the CLIPBOARD selection at
/// once: the copy waits there for the Wayland side, and the timer of that
/// selection is set.
pub proof fn x11_copies_reach_the_clipboard(app: AppView, owner: u32)
    requires
        owner != 0,
        owner != app.env.x11.win,
        app.env.running,
        !app.env.aggressive_claims,
        app.env.wm_window != Some(owner),
        app.clipboard.fill is Some ==> !app.clipboard.fill->0.fill_x11,
    ensures
        app.after_x11_event(
            X11Event::SelectionOwner {
                selection: app.env.x11.atoms.clipboard,
                owner,
                set_owner: true,
            },
        ) == (AppTurn {
            app: AppView {
                clipboard: SelView {
                    x11_gen: app.clipboard.x11_gen + 1,
                    fill: Some(
                        FillView {
                            fill_x11: false,
                            wl_gen: app.clipboard.wl_gen,
                            x11_gen: app.clipboard.x11_gen + 1,
                            types: seq![],
                            owner: Some(owner),
                        },
                    ),
                    ..app.clipboard
                },
                ..app
            },
            acts: seq![ActionView::ArmGapTimer(SelKind::Clipboard)],
        }),
{
    steps::every_x11_copy_waits_its_turn(app.clipboard, app.env, SelKind::Clipboard, owner);
}

/// An X11 owner of CLIPBOARD that goes away, or whose window does, ends its
/// proxy, and the Wayland claim is given up, unless an eager snapshot holds
/// its content.
pub proof fn gone_x11_clipboards_are_released(app: AppView, owner: u32, set_owner: bool)
    requires
        owner == 0 || !set_owner,
        owner != app.env.x11.win,
        app.clipboard.broker.state is X11App,
        app.clipboard.source is Some,
    ensures
        ({
            let turn = app.after_x11_event(
                X11Event::SelectionOwner {
                    selection: app.env.x11.atoms.clipboard,
                    owner,
                    set_owner,
                },
            );
            let kept = app.env.sync_mode is Eager && app.clipboard.snapshot is Some;
            &&& turn.app == AppView { clipboard: turn.app.clipboard, ..app }
            &&& kept ==> turn.acts.len() == 0 && turn.app.clipboard == SelView {
                x11_gen: app.clipboard.x11_gen + 1,
                ..app.clipboard
            }
            &&& !kept ==> {
                &&& turn.app.clipboard.broker == BrokerView {
                    state: StateView::Idle,
                    epoch: app.clipboard.broker.epoch + 1,
                }
                &&& turn.app.clipboard.source is None
                &&& turn.acts.last() == ActionView::ReleaseWayland(
                    SelKind::Clipboard,
                    app.clipboard.source->0,
                )
            }
        }),
{
    steps::gone_x11_owners_end_their_proxy(app.clipboard, app.env, SelKind::Clipboard, owner);
}

/// An X11 PRIMARY change waits until PRIMARY settles, where PRIMARY is
/// bridged; what counts then is whether there is an owner.
pub proof fn x11_primary_changes_wait_to_settle(app: AppView, owner: u32, set_owner: bool)
    requires
        app.env.primary,
        app.env.running,
        app.env.x11.atoms.clipboard != 1,
        owner != app.env.x11.win,
    ensures
        app.after_x11_event(X11Event::SelectionOwner { selection: 1, owner, set_owner }) == (
        AppTurn {
            app: AppView {
                pending: Some(PendingView::X11(owner != 0 && set_owner)),
                primary_gen: app.primary_gen + 1,
                ..app
            },
            acts: seq![ActionView::ArmPrimaryTimer(app.primary_gen + 1)],
        }),
{
}

/// Owner changes that are none of the bridge's business: of a selection that
/// is not bridged, or to the bridge's own window.
pub proof fn other_owner_changes_do_nothing(
    app: AppView,
    selection: u32,
    owner: u32,
    set_owner: bool,
)
    requires
        owner == app.env.x11.win || (selection != app.env.x11.atoms.clipboard && !(selection == 1
            && app.env.primary)),
    ensures
        app.after_x11_event(X11Event::SelectionOwner { selection, owner, set_owner }) == (AppTurn {
            app,
            acts: seq![],
        }),
{
}

/// A bridged selection that the bridge loses ends what was proxied on its X11
/// side, whatever the other selection does.
pub proof fn losses_reach_their_selection(app: AppView, selection: u32)
    ensures
        selection == app.env.x11.atoms.clipboard ==> {
            let turn = app.after_x11_event(X11Event::SelectionClear { selection });
            &&& turn.app == AppView { clipboard: turn.app.clipboard, ..app }
            &&& turn.app.clipboard == SelView {
                broker: BrokerView {
                    state: StateView::Idle,
                    epoch: app.clipboard.broker.epoch + 1,
                },
                owned_since: None,
                claim: None,
                snapshot: None,
                capture: None,
                parked: seq![],
                ..app.clipboard
            }
            &&& turn.acts == selection::refusals(app.clipboard.parked)
        },
        selection == 1 && app.env.primary && app.env.x11.atoms.clipboard != 1 ==> {
            let turn = app.after_x11_event(X11Event::SelectionClear { selection });
            &&& turn.app == AppView { primary: turn.app.primary, ..app }
            &&& turn.app.primary == SelView {
                broker: BrokerView { state: StateView::Idle, epoch: app.primary.broker.epoch + 1 },
                owned_since: None,
                claim: None,
                snapshot: None,
                capture: None,
                parked: seq![],
                ..app.primary
            }
            &&& turn.acts == selection::refusals(app.primary.parked)
        },
        selection != app.env.x11.atoms.clipboard && !(selection == 1 && app.env.primary)
            ==> app.after_x11_event(X11Event::SelectionClear { selection }) == (AppTurn {
            app,
            acts: seq![],
        }),
{
    steps::lost_claims_are_over(app.clipboard, app.env, SelKind::Clipboard);
    steps::lost_claims_are_over(app.primary, app.env, SelKind::Primary);
}

/// A request is answered by the selection that it names; one for a selection
/// that is not bridged is refused.
pub proof fn requests_reach_their_selection(app: AppView, req: SelectionRequest)
    ensures
        ({
            let turn = app.after_x11_event(X11Event::SelectionRequest(req));
            &&& req.selection == app.env.x11.atoms.clipboard ==> {
                let own = app.clipboard.after_request(app.env, SelKind::Clipboard, req);
                turn.app == (AppView { clipboard: own.sel, ..app }) && turn.acts == own.acts
            }
            &&& req.selection == 1 && app.env.primary && app.env.x11.atoms.clipboard != 1 ==> {
                let own = app.primary.after_request(app.env, SelKind::Primary, req);
                turn.app == (AppView { primary: own.sel, ..app }) && turn.acts == own.acts
            }
            &&& req.selection != app.env.x11.atoms.clipboard && !(req.selection == 1
                && app.env.primary) ==> turn == (AppTurn {
                app,
                acts: seq![
                    ActionView::Notify(
                        (SelectionNotify {
                            time: req.time,
                            requestor: req.requestor,
                            selection: req.selection,
                            target: req.target,
                            property: 0,
                        }),
                    ),
                ],
            })
        }),
{
}

/// An answer to the bridge's request for targets reaches the selection that it
/// names, and is read for the claim that asked. Answers to other windows, to
/// other requests or of other selections, and all other events, do nothing.
pub proof fn target_answers_reach_their_selection(
    app: AppView,
    requestor: u32,
    selection: u32,
    target: u32,
    property: u32,
)
    ensures
        ({
            let turn = app.after_x11_event(
                X11Event::SelectionNotify { requestor, selection, target, property },
            );
            let ours = requestor == app.env.x11.win && target == app.env.x11.atoms.targets;
            let first = selection == app.env.x11.atoms.clipboard;
            let second = selection == 1 && app.env.primary && !first;
            &&& !ours || (!first && !second) ==> turn == (AppTurn { app, acts: seq![] })
            &&& ours && first && property != 0 && app.clipboard.pending_targets is Some ==> turn
                == (AppTurn {
                app: AppView {
                    clipboard: SelView { pending_targets: None, ..app.clipboard },
                    ..app
                },
                acts: seq![
                    ActionView::ReadTargets(
                        SelKind::Clipboard,
                        app.clipboard.pending_targets->0,
                    ),
                ],
            })
            &&& ours && second && property != 0 && app.primary.pending_targets is Some ==> turn
                == (AppTurn {
                app: AppView {
                    primary: SelView { pending_targets: None, ..app.primary },
                    ..app
                },
                acts: seq![
                    ActionView::ReadTargets(SelKind::Primary, app.primary.pending_targets->0),
                ],
            })
            &&& ours && first ==> {
                let own = app.clipboard.after_targets_reply(app.env, SelKind::Clipboard, property);
                turn.app == (AppView { clipboard: own.sel, ..app }) && turn.acts == own.acts
            }
            &&& ours && second ==> {
                let own = app.primary.after_targets_reply(app.env, SelKind::Primary, property);
                turn.app == (AppView { primary: own.sel, ..app }) && turn.acts == own.acts
            }
        }),
        app.after_x11_event(X11Event::Other) == (AppTurn { app, acts: seq![] }),
{
}

/// Whether the bridge's own X11 claim is recent is for the clock to say of the
/// very moment of that claim: it is if at most ten milliseconds have passed.
/// Where there is no claim, none is recent.
pub proof fn the_moment_of_the_claim_decides(sel: SelView, recent: bool)
    ensures
        sel.claim is None ==> (sel.claim_judged_recent(recent) <==> !recent),
        sel.claim is Some ==> (sel.claim_judged_recent(recent) <==> exists|age: u128| #[trigger]
            selection::clock_measures(sel.claim->0.at, age) && recent == (age <= 10_000_000)),
{
    if sel.claim is Some && sel.claim_judged_recent(recent) {
        let at = sel.claim->0.at;
        let age: u128 = choose|age: u128| #[trigger]
            selection::clock_measures(at, age) && recent == selection::in_echo_window(age);
        assert(selection::clock_measures(at, age) && recent == (age <= 10_000_000));
    }
    if sel.claim is Some && exists|age: u128| #[trigger]
        selection::clock_measures(sel.claim->0.at, age) && recent == (age <= 10_000_000) {
        let at = sel.claim->0.at;
        let age: u128 = choose|age: u128| #[trigger]
            selection::clock_measures(at, age) && recent == (age <= 10_000_000);
        assert(selection::clock_measures(at, age) && recent == selection::in_echo_window(age));
    }
}

/// The bridge after an event that only one of its selections takes part in:
/// that selection made this step, the other and everything else stayed.
pub open spec fn stepped(before: AppView, after: AppView, kind: SelKind, sel: SelView) -> bool {
    &&& match kind {
        SelKind::Clipboard => after.clipboard == sel && after.primary == before.primary,
        SelKind::Primary => after.primary == sel && after.clipboard == before.clipboard,
    }
    &&& after.env == before.env
    &&& after.pending == before.pending
    &&& after.primary_gen == before.primary_gen
    &&& after.exit == before.exit
}

/// The selection of a bridge that a kind names.
pub open spec fn named(app: AppView, kind: SelKind) -> SelView {
    if kind is Primary {
        app.primary
    } else {
        app.clipboard
    }
}

/// A new bridge goes by its options, with two empty selections; starting it
/// sets its event loop running and changes nothing else.
pub proof fn bridges_start_empty(
    x11: X11,
    wm_window: Option<u32>,
    options: Options,
    made: App,
    app: &mut App,
)
    requires
        call_ensures(App::new, (x11, wm_window, &options), made),
        call_ensures(App::start, (app,), ()),
    ensures
        made@.env == app::settings(x11, wm_window, options),
        made@.clipboard == SelView::initial(),
        made@.primary == SelView::initial(),
        made@.pending is None,
        made@.primary_gen == 0,
        made@.exit is None,
        final(app)@ == (AppView { env: Env { running: true, ..old(app)@.env }, ..old(app)@ }),
{
}

/// The first reason to stop is the one that counts, and the event loop is left
/// either way.
pub proof fn the_first_reason_counts(app: &mut App, error: String, asked: Vec<Action>)
    requires
        call_ensures(App::fatal, (app, error), asked),
    ensures
        old(app)@.exit is None ==> final(app)@.exit == Some(error@),
        old(app)@.exit is Some ==> final(app)@.exit == old(app)@.exit,
        final(app)@ == (AppView { exit: final(app)@.exit, ..old(app)@ }),
        action::acts(asked@) == seq![ActionView::Stop],
{
}

/// A compositor that ends the data-control device stops the bridge.
pub proof fn a_finished_device_stops_the_bridge(app: &mut App, asked: Vec<Action>)
    requires
        call_ensures(App::on_wayland_finished, (app,), asked),
    ensures
        old(app)@.exit is None ==> final(app)@.exit == Some(
            "compositor finished our data-control device"@,
        ),
        old(app)@.exit is Some ==> final(app)@.exit == old(app)@.exit,
        final(app)@ == (AppView { exit: final(app)@.exit, ..old(app)@ }),
        action::acts(asked@) == seq![ActionView::Stop],
{
}

/// When the gap window of a selection has passed, that selection fills its gap
/// or leaves it, and what it asks for is asked for.
pub proof fn gaps_belong_to_their_selection(app: &mut App, kind: SelKind, asked: Vec<Action>)
    requires
        call_ensures(App::fire_gap_fill, (app, kind), asked),
    ensures
        ({
            let turn = named(old(app)@, kind).after_gap(old(app)@.env, kind);
            &&& stepped(old(app)@, final(app)@, kind, turn.sel)
            &&& action::acts(asked@) == turn.acts
        }),
{
}

/// A cancelled data source belongs to the selection that it was made for.
pub proof fn sources_belong_to_their_selection(
    app: &mut App,
    kind: SelKind,
    source: u64,
    asked: Vec<Action>,
)
    requires
        call_ensures(App::on_source_cancelled, (app, kind, source), asked),
    ensures
        action::acts(asked@) == seq![ActionView::DestroySource(kind, source as nat)],
        ({
            let sel = named(old(app)@, kind);
            stepped(
                old(app)@,
                final(app)@,
                kind,
                SelView {
                    source: if sel.source == Some(source as nat) {
                        None
                    } else {
                        sel.source
                    },
                    ..sel
                },
            )
        }),
{
}

/// The X11 owner at the start decides for the selection that it owns.
pub proof fn starts_belong_to_their_selection(
    app: &mut App,
    kind: SelKind,
    owner: u32,
    asked: Vec<Action>,
)
    requires
        call_ensures(App::on_startup_owner, (app, kind, owner), asked),
    ensures
        ({
            let turn = named(old(app)@, kind).after_startup(old(app)@.env, kind, owner);
            &&& stepped(old(app)@, final(app)@, kind, turn.sel)
            &&& action::acts(asked@) == turn.acts
        }),
{
}

/// The names of an X11 owner's targets belong to the selection that asked for
/// them.
pub proof fn reports_belong_to_their_selection(
    app: &mut App,
    kind: SelKind,
    epoch: u64,
    names: Option<Vec<String>>,
    asked: Vec<Action>,
)
    requires
        call_ensures(App::on_targets_read, (app, kind, epoch, names), asked),
    ensures
        ({
            let list = match names {
                Some(names) => Some(Seq::new(names@.len(), |i: int| names@[i]@)),
                None => None,
            };
            let turn = named(old(app)@, kind).after_targets_read(
                old(app)@.env,
                kind,
                epoch as nat,
                list,
            );
            &&& stepped(old(app)@, final(app)@, kind, turn.sel)
            &&& action::acts(asked@) == turn.acts
        }),
{
    if names is Some {
        assert(text::texts(names->0@) =~= Seq::new(names->0@.len(), |i: int| names->0@[i]@));
    }
}

/// Atoms belong to the selection whose claim they were interned for.
pub proof fn atoms_belong_to_their_selection(
    app: &mut App,
    kind: SelKind,
    epoch: u64,
    atoms: &[u32],
    asked: Vec<Action>,
)
    requires
        call_ensures(App::on_targets_interned, (app, kind, epoch, atoms), asked),
    ensures
        ({
            let turn = named(old(app)@, kind).after_interned(
                old(app)@.env,
                kind,
                epoch as nat,
                atoms@,
            );
            &&& stepped(old(app)@, final(app)@, kind, turn.sel)
            &&& action::acts(asked@) == turn.acts
        }),
{
}

/// A snapshot belongs to the selection that it was fetched for.
pub proof fn snapshots_belong_to_their_selection(
    app: &mut App,
    msg: SnapshotMsg,
    asked: Vec<Action>,
)
    requires
        call_ensures(App::on_snapshot, (app, msg), asked),
    ensures
        ({
            let turn = named(old(app)@, msg.kind).after_snapshot(
                old(app)@.env,
                msg.kind,
                msg.snapshot@,
            );
            &&& stepped(old(app)@, final(app)@, msg.kind, turn.sel)
            &&& action::acts(asked@) == turn.acts
        }),
{
}

/// A capture that starts is remembered by its selection if it is for the
/// present claim.
pub proof fn captures_belong_to_their_selection(app: &mut App, kind: SelKind, epoch: u64)
    requires
        call_ensures(App::on_capture_started, (app, kind, epoch), ()),
    ensures
        ({
            let sel = named(old(app)@, kind);
            stepped(
                old(app)@,
                final(app)@,
                kind,
                SelView {
                    capture: if epoch == sel.broker.epoch {
                        Some(epoch as nat)
                    } else {
                        sel.capture
                    },
                    ..sel
                },
            )
        }),
{
}

/// A selection that was taken back is owned since then exactly if the bridge's
/// window owns it.
pub proof fn reclaims_belong_to_their_selection(
    app: &mut App,
    kind: SelKind,
    owner: u32,
    time: u32,
)
    requires
        call_ensures(App::on_x11_reclaimed, (app, kind, owner, time), ()),
    ensures
        stepped(
            old(app)@,
            final(app)@,
            kind,
            SelView {
                owned_since: if owner == old(app)@.env.x11.win {
                    Some(time)
                } else {
                    None
                },
                ..named(old(app)@, kind)
            },
        ),
{
}

/// A selection that was claimed is owned since then exactly if the bridge's
/// window owns it, and the types that were claimed are remembered.
pub proof fn claims_belong_to_their_selection(
    app: &mut App,
    kind: SelKind,
    owner: u32,
    time: u32,
    types: Seq<Seq<char>>,
)
    requires
        call_ensures(App::on_x11_claimed, (app, kind, owner, time), ()),
        named(old(app)@, kind).broker.state == StateView::WaylandApp(types),
        types.len() > 0,
    ensures
        named(final(app)@, kind).claim is Some,
        named(final(app)@, kind).claim->0.types == types,
        stepped(
            old(app)@,
            final(app)@,
            kind,
            SelView {
                owned_since: if owner == old(app)@.env.x11.win {
                    Some(time)
                } else {
                    None
                },
                claim: named(final(app)@, kind).claim,
                ..named(old(app)@, kind)
            },
        ),
{
}

/// A Wayland client that pastes is served by the selection that it pastes from.
pub proof fn pastes_belong_to_their_selection(
    app: App,
    kind: SelKind,
    source: u64,
    mime: &str,
    plan: SendPlan,
)
    requires
        call_ensures(App::on_source_send, (&app, kind, source, mime), plan),
    ensures
        plan@ == named(app@, kind).send_plan(app@.env, kind, source as nat, mime@),
{
}

/// Wayland CLIPBOARD events are judged by the clipboard's own claim, PRIMARY
/// events by that of PRIMARY.
pub proof fn wayland_events_are_judged_by_their_selection(
    app: &mut App,
    kind: SelKind,
    offer: Option<Offer>,
    asked: Vec<Action>,
)
    requires
        call_ensures(App::on_wayland_selection, (app, kind, offer), asked),
    ensures
        exists|recent: bool|
            {
                let turn = #[trigger] old(app)@.after_wayland_selection(
                    kind,
                    wayland::seen(offer),
                    recent,
                );
                &&& named(old(app)@, kind).claim_judged_recent(recent)
                &&& final(app)@ == turn.app
                &&& action::acts(asked@) == turn.acts
            },
{
}

/// The timer of the latest PRIMARY change makes the pending change take effect,
/// and what that asks for is asked for.
pub proof fn settled_primary_takes_effect(
    app: &mut App,
    recent: bool,
    offer: OfferView,
    asked: Vec<Action>,
)
    requires
        call_ensures(App::primary_debounced, (app, old(app)@.primary_gen as u64, recent), asked),
        old(app)@.primary_gen <= u64::MAX,
        old(app)@.pending == Some(PendingView::Wayland(Some(offer))),
        old(app)@.env.running,
        !old(app)@.env.aggressive_claims,
        steps::is_genuine_copy(old(app)@.primary, old(app)@.env, offer, recent),
    ensures
        final(app)@.pending is None,
        final(app)@.primary.offer == Some(offer),
        final(app)@.primary.fill == Some(
            FillView {
                fill_x11: true,
                wl_gen: old(app)@.primary.wl_gen + 1,
                x11_gen: old(app)@.primary.x11_gen,
                types: offer.types,
                owner: None,
            },
        ),
        final(app)@.clipboard == old(app)@.clipboard,
        asked@.len() > 0,
        asked@.last()@ == ActionView::ArmGapTimer(SelKind::Primary),
{
    settled_primary_copies_wait_for_the_x11_side(old(app)@, offer, recent);
    let acts = action::acts(asked@);
    assert(acts.last() == asked@.last()@);
}

/// A genuine Wayland copy on the clipboard, as the bridge takes it in: it
/// becomes the live offer, waits for the X11 side with exactly its types, and
/// the gap timer is set, whatever was proxied before.
pub proof fn clipboard_copies_take_effect(
    app: &mut App,
    offer: Option<Offer>,
    recent: bool,
    seen: OfferView,
    asked: Vec<Action>,
)
    requires
        call_ensures(App::wayland_selection, (app, SelKind::Clipboard, offer, recent), asked),
        offer is Some,
        seen.id == offer->0.id,
        seen.types == text::texts(offer->0.mime_types@),
        old(app)@.clipboard.source is None,
        old(app)@.env.running,
        !old(app)@.env.aggressive_claims,
        steps::is_genuine_copy(old(app)@.clipboard, old(app)@.env, seen, recent),
    ensures
        final(app)@.clipboard.offer == Some(seen),
        final(app)@.clipboard.fill == Some(
            FillView {
                fill_x11: true,
                wl_gen: old(app)@.clipboard.wl_gen + 1,
                x11_gen: old(app)@.clipboard.x11_gen,
                types: seen.types,
                owner: None,
            },
        ),
        final(app)@.clipboard.broker == old(app)@.clipboard.broker,
        final(app)@.primary == old(app)@.primary,
        asked@.len() > 0,
        asked@.last()@ == ActionView::ArmGapTimer(SelKind::Clipboard),
{
    assert(seen =~= offer->0@);
    clipboard_copies_reach_the_clipboard(old(app)@, seen, recent);
    let acts = action::acts(asked@);
    assert(acts.last() == asked@.last()@);
}

/// An X11 application that takes the clipboard, as the bridge takes it in: its
/// window is remembered as the owner to proxy, and the gap timer is set.
pub proof fn x11_copies_take_effect(app: &mut App, owner: u32, asked: Vec<Action>)
    requires
        call_ensures(
            App::handle_x11_event,
            (
                app,
                &X11Event::SelectionOwner {
                    selection: old(app)@.env.x11.atoms.clipboard,
                    owner,
                    set_owner: true,
                },
            ),
            asked,
        ),
        owner != 0,
        owner != old(app)@.env.x11.win,
        old(app)@.env.running,
        !old(app)@.env.aggressive_claims,
        old(app)@.env.wm_window != Some(owner),
        old(app)@.clipboard.fill is Some ==> !old(app)@.clipboard.fill->0.fill_x11,
    ensures
        final(app)@.clipboard.fill == Some(
            FillView {
                fill_x11: false,
                wl_gen: old(app)@.clipboard.wl_gen,
                x11_gen: old(app)@.clipboard.x11_gen + 1,
                types: seq![],
                owner: Some(owner),
            },
        ),
        final(app)@.primary == old(app)@.primary,
        action::acts(asked@) == seq![ActionView::ArmGapTimer(SelKind::Clipboard)],
{
    x11_copies_reach_the_clipboard(old(app)@, owner);
}

/// An event of the X server, a PRIMARY event and a PRIMARY timer do to the
/// bridge what is stated of them, and what they ask for is asked for.
pub proof fn events_do_what_is_stated(
    x: &mut App,
    event: X11Event,
    x_asked: Vec<Action>,
    p: &mut App,
    offer: Option<Offer>,
    recent: bool,
    p_asked: Vec<Action>,
    t: &mut App,
    generation: u64,
    t_asked: Vec<Action>,
)
    requires
        call_ensures(App::handle_x11_event, (x, &event), x_asked),
        call_ensures(App::wayland_primary, (p, offer, recent), p_asked),
        call_ensures(App::primary_debounced, (t, generation, recent), t_asked),
    ensures
        final(x)@ == old(x)@.after_x11_event(event).app,
        action::acts(x_asked@) == old(x)@.after_x11_event(event).acts,
        final(p)@ == old(p)@.after_wayland_primary(wayland::seen(offer), recent).app,
        action::acts(p_asked@) == old(p)@.after_wayland_primary(wayland::seen(offer), recent).acts,
        final(t)@ == old(t)@.after_debounce(generation as nat, recent).app,
        action::acts(t_asked@) == old(t)@.after_debounce(generation as nat, recent).acts,
{
}

/// The same where the clock says whether the bridge's own claim of PRIMARY is
/// recent.
pub proof fn timed_events_do_what_is_stated(
    p: &mut App,
    offer: Option<Offer>,
    p_asked: Vec<Action>,
    t: &mut App,
    generation: u64,
    t_asked: Vec<Action>,
)
    requires
        call_ensures(App::on_wayland_primary, (p, offer), p_asked),
        call_ensures(App::fire_primary_debounce, (t, generation), t_asked),
    ensures
        exists|recent: bool|
            {
                let turn = #[trigger] old(p)@.after_wayland_primary(wayland::seen(offer), recent);
                &&& old(p)@.primary.claim_judged_recent(recent)
                &&& final(p)@ == turn.app
                &&& action::acts(p_asked@) == turn.acts
            },
        exists|recent: bool|
            {
                let turn = #[trigger] old(t)@.after_debounce(generation as nat, recent);
                &&& old(t)@.primary.claim_judged_recent(recent)
                &&& final(t)@ == turn.app
                &&& action::acts(t_asked@) == turn.acts
            },
{
}

/// What is asked of the bridge is answered as it is.
pub proof fn questions_are_answered(
    app: App,
    selection: u32,
    kind: Option<SelKind>,
    probed: Vec<SelKind>,
    room: bool,
    env: &Env,
    reason: Option<&String>,
)
    requires
        call_ensures(App::kind_for_selection, (&app, selection), kind),
        call_ensures(App::probe_x11_startup, (&app,), probed),
        call_ensures(App::can_advance, (&app,), room),
        call_ensures(App::env, (&app,), env),
        call_ensures(App::exit, (&app,), reason),
    ensures
        kind == app@.kind_for(selection),
        probed@ == app@.to_probe(),
        room <==> app@.clipboard.has_room() && app@.primary.has_room() && app@.primary_gen
            < u64::MAX,
        *env == app@.env,
        reason is Some <==> app@.exit is Some,
        reason is Some ==> app@.exit == Some(reason->0@),
{
}

/// Every Wayland event on the clipboard, of whatever offer or of none, reaches
/// the clipboard at once, and nothing else, unless the bridge's own data source
/// is alive there.
pub proof fn clipboard_events_reach_the_clipboard(
    app: AppView,
    offer: Option<OfferView>,
    recent: bool,
)
    requires
        app.clipboard.source is None,
    ensures
        ({
            let turn = app.after_wayland_selection(SelKind::Clipboard, offer, recent);
            let own = app.clipboard.after_wayland_selection(
                app.env,
                SelKind::Clipboard,
                offer,
                recent,
            );
            turn == (AppTurn { app: AppView { clipboard: own.sel, ..app }, acts: own.acts })
        }),
{
}

/// Every X11 owner change of the clipboard, but to the bridge's own window,
/// reaches the clipboard at once, and nothing else. There is an owner if the
/// change sets one.
pub proof fn clipboard_owners_reach_the_clipboard(app: AppView, owner: u32, set_owner: bool)
    requires
        owner != app.env.x11.win,
    ensures
        ({
            let turn = app.after_x11_event(
                X11Event::SelectionOwner {
                    selection: app.env.x11.atoms.clipboard,
                    owner,
                    set_owner,
                },
            );
            let own = app.clipboard.after_x11_owner(
                app.env,
                SelKind::Clipboard,
                owner,
                owner != 0 && set_owner,
            );
            turn == (AppTurn { app: AppView { clipboard: own.sel, ..app }, acts: own.acts })
        }),
{
}

/// Whatever waited to settle reaches PRIMARY with its latest timer, and nothing
/// else.
pub proof fn settled_changes_reach_primary(app: AppView, offer: Option<OfferView>, recent: bool)
    requires
        app.pending == Some(PendingView::Wayland(offer)),
    ensures
        ({
            let turn = app.after_debounce(app.primary_gen, recent);
            let own = app.primary.after_wayland_selection(
                app.env,
                SelKind::Primary,
                offer,
                recent,
            );
            turn == (AppTurn {
                app: AppView { primary: own.sel, pending: None, ..app },
                acts: own.acts,
            })
        }),
{
}

/// Before the event loop runs, a PRIMARY change of either side settles at once.
pub proof fn early_primary_changes_settle_at_once(
    app: AppView,
    offer: Option<OfferView>,
    owner: u32,
    set_owner: bool,
    recent: bool,
)
    requires
        app.env.primary,
        !app.env.running,
        app.env.x11.atoms.clipboard != 1,
        owner != app.env.x11.win,
    ensures
        app.primary.source is None ==> ({
            let turn = app.after_wayland_primary(offer, recent);
            let own = app.primary.after_wayland_selection(
                app.env,
                SelKind::Primary,
                offer,
                recent,
            );
            turn == (AppTurn {
                app: AppView {
                    primary: own.sel,
                    pending: None,
                    primary_gen: app.primary_gen + 1,
                    ..app
                },
                acts: own.acts,
            })
        }),
        ({
            let turn = app.after_x11_event(
                X11Event::SelectionOwner { selection: 1, owner, set_owner },
            );
            let own = app.primary.after_x11_primary(
                app.env,
                SelKind::Primary,
                owner != 0 && set_owner,
            );
            turn == (AppTurn {
                app: AppView {
                    primary: own.sel,
                    pending: None,
                    primary_gen: app.primary_gen + 1,
                    ..app
                },
                acts: own.acts,
            })
        }),
{
}

} // verus!
