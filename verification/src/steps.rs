//! What one event does to a selection, case by case: which cases there are is
//! said in terms of what the selection holds and what the event brings, and
//! what comes of each is said field by field and action by action.

use std::sync::Arc;
use std::time::Instant;

use vstd::prelude::*;

use crate::action::{ActionView, Env, PasteView, ReadView, ReplyView};
use crate::broker::{BrokerView, EventView, StateView};
use crate::mime;
use crate::mime::Transform;
use crate::payload::{Snapshot, SnapshotView};
use crate::selection;
use crate::selection::{
    ClaimView, FillView, OwnX11Claim, ParkedView, RequestVerdict, SelView, SendPlan, SendView, Turn,
};
use crate::text;
use crate::transfer;
use crate::transfer::{Conv, Refusal, TargetView, X2wRequest};
use crate::wayland::OfferView;
use crate::x11;
use crate::x11::{SelectionNotify, SelectionRequest};
use crate::SelKind;

verus! {

/// A refusal goes to the window that asked, names the selection and the target
/// that it asked for and the time that it gave, and no property.
pub proof fn parked_pastes_are_refused_in_order(parked: Seq<ParkedView>, i: int)
    requires
        0 <= i < parked.len(),
    ensures
        selection::refusals(parked).len() == parked.len(),
        selection::refusals(parked)[i] == ActionView::Notify(
            (SelectionNotify {
                time: parked[i].paste.req.time,
                requestor: parked[i].paste.req.requestor,
                selection: parked[i].paste.req.selection,
                target: parked[i].paste.req.target,
                property: 0,
            }),
        ),
{
}

/// A selection that a Wayland application takes: the broker proxies exactly
/// its types under a new epoch, what belonged to the old claim goes, what was
/// parked on it is refused, and the names of the new targets are asked for.
proof fn wayland_takes(sel: SelView, env: Env, kind: SelKind, types: Seq<Seq<char>>)
    ensures
        sel.dispatched(env, kind, EventView::WaylandSelection(types)) == (Turn {
            sel: SelView {
                broker: BrokerView {
                    state: StateView::WaylandApp(types),
                    epoch: sel.broker.epoch + 1,
                },
                snapshot: None,
                capture: None,
                parked: seq![],
                ..sel
            },
            acts: selection::refusals(sel.parked).push(
                ActionView::InternTargets(
                    kind,
                    sel.broker.epoch + 1,
                    selection::row_names(selection::proxy_rows(types)),
                ),
            ),
        }),
{
    reveal(SelView::dispatched);
}

/// A selection that nobody on the Wayland side holds any more.
proof fn wayland_leaves(sel: SelView, env: Env, kind: SelKind)
    ensures
        sel.broker.state is WaylandApp ==> sel.dispatched(env, kind, EventView::WaylandCleared)
            == (Turn {
            sel: SelView {
                broker: BrokerView { state: StateView::Idle, epoch: sel.broker.epoch + 1 },
                snapshot: None,
                capture: None,
                parked: seq![],
                targets: seq![],
                claim: None,
                owned_since: None,
                ..sel
            },
            acts: selection::refusals(sel.parked) + match sel.owned_since {
                Some(time) => seq![ActionView::ReleaseX11(kind, time)],
                None => seq![],
            },
        }),
        !(sel.broker.state is WaylandApp) ==> sel.dispatched(env, kind, EventView::WaylandCleared)
            == (Turn {
            sel: SelView {
                broker: BrokerView { state: StateView::Idle, epoch: sel.broker.epoch + 1 },
                snapshot: None,
                capture: None,
                parked: seq![],
                ..sel
            },
            acts: selection::refusals(sel.parked),
        }),
{
    reveal(SelView::dispatched);
    assert(selection::refusals(seq![]) =~= seq![]);
}

/// A selection that an X11 application takes.
proof fn x11_takes(sel: SelView, env: Env, kind: SelKind)
    ensures
        sel.dispatched(env, kind, EventView::X11Selection) == (Turn {
            sel: SelView {
                broker: BrokerView {
                    state: StateView::X11App(seq![]),
                    epoch: sel.broker.epoch + 1,
                },
                snapshot: None,
                capture: None,
                parked: seq![],
                pending_targets: Some(sel.broker.epoch + 1),
                ..sel
            },
            acts: selection::refusals(sel.parked).push(ActionView::FetchTargets(kind)),
        }),
{
    reveal(SelView::dispatched);
}

/// A selection that nobody on the X11 side holds any more.
proof fn x11_leaves(sel: SelView, env: Env, kind: SelKind)
    ensures
        sel.broker.state is X11App ==> sel.dispatched(env, kind, EventView::X11Cleared) == (Turn {
            sel: SelView {
                broker: BrokerView { state: StateView::Idle, epoch: sel.broker.epoch + 1 },
                snapshot: None,
                capture: None,
                parked: seq![],
                source: None,
                ..sel
            },
            acts: selection::refusals(sel.parked) + match sel.source {
                Some(source) => seq![ActionView::ReleaseWayland(kind, source)],
                None => seq![],
            },
        }),
        !(sel.broker.state is X11App) ==> sel.dispatched(env, kind, EventView::X11Cleared)
            == (Turn { sel, acts: seq![] }),
{
    reveal(SelView::dispatched);
}

/// An offer is a genuine copy: it has content; it carries no X11 protocol
/// names; it is not, soon after the bridge's own X11 claim, a part of that
/// claim; it is no secret, or secrets are bridged; and, where the bridge only
/// fills gaps, no X11 copy is waiting for just such an offer.
pub open spec fn is_genuine_copy(
    sel: SelView,
    env: Env,
    offer: OfferView,
    recent: bool,
) -> bool {
    &&& offer.types.len() > 0
    &&& forall|i: int| 0 <= i < offer.types.len() ==> !mime::is_protocol(#[trigger] offer.types[i])
    &&& sel.claim is Some && recent ==> exists|i: int|
        0 <= i < offer.types.len() && !sel.claim->0.types.contains(#[trigger] offer.types[i])
    &&& env.skip_sensitive ==> !offer.types.contains("x-kde-passwordManagerHint"@)
    &&& !env.aggressive_claims && sel.fill is Some ==> sel.fill->0.fill_x11
}

proof fn genuine_copies_are_judged_so(sel: SelView, env: Env, offer: OfferView, recent: bool)
    requires
        is_genuine_copy(sel, env, offer, recent),
    ensures
        mime::content(offer.types) == offer.types,
        !mime::is_mirror(offer.types),
        !(sel.claim matches Some(own) && selection::is_echo_of(own.types, offer.types, recent)),
{
    mime::content_is_the_rest(offer.types, seq![]);
    if sel.claim is Some && recent {
        let i = choose|i: int|
            0 <= i < offer.types.len() && !sel.claim->0.types.contains(#[trigger] offer.types[i]);
        assert(mime::content(offer.types)[i] == offer.types[i]);
    }
}

/// Every genuine Wayland copy waits to be filled in on the X11 side, whatever
/// the selection proxies at present: the offer becomes the live one, the
/// pending fill holds exactly the content types of that offer and both sides'
/// present counters, and the gap timer is set. Nothing else changes.
pub proof fn every_wayland_copy_waits_its_turn(
    sel: SelView,
    env: Env,
    kind: SelKind,
    offer: OfferView,
    recent: bool,
)
    requires
        is_genuine_copy(sel, env, offer, recent),
        env.running,
        !env.aggressive_claims,
    ensures
        sel.after_wayland_selection(env, kind, Some(offer), recent) == (Turn {
            sel: SelView {
                offer: Some(offer),
                wl_gen: sel.wl_gen + 1,
                wayland_owned: true,
                sensitive: offer.types.contains("x-kde-passwordManagerHint"@),
                fill: Some(
                    FillView {
                        fill_x11: true,
                        wl_gen: sel.wl_gen + 1,
                        x11_gen: sel.x11_gen,
                        types: offer.types,
                        owner: None,
                    },
                ),
                ..sel
            },
            acts: (match sel.offer {
                Some(old) => seq![ActionView::DestroyOffer(old.id)],
                None => seq![],
            }).push(ActionView::ArmGapTimer(kind)),
        }),
{
    genuine_copies_are_judged_so(sel, env, offer, recent);
}

/// The same before the event loop runs, when there is no timer to set: the
/// copy waits for the start.
pub proof fn every_early_wayland_copy_waits_for_the_start(
    sel: SelView,
    env: Env,
    kind: SelKind,
    offer: OfferView,
    recent: bool,
)
    requires
        is_genuine_copy(sel, env, offer, recent),
        !env.running,
    ensures
        sel.after_wayland_selection(env, kind, Some(offer), recent) == (Turn {
            sel: SelView {
                offer: Some(offer),
                wl_gen: sel.wl_gen + 1,
                wayland_owned: true,
                sensitive: offer.types.contains("x-kde-passwordManagerHint"@),
                fill: Some(
                    FillView {
                        fill_x11: true,
                        wl_gen: sel.wl_gen + 1,
                        x11_gen: sel.x11_gen,
                        types: offer.types,
                        owner: None,
                    },
                ),
                ..sel
            },
            acts: match sel.offer {
                Some(old) => seq![ActionView::DestroyOffer(old.id)],
                None => seq![],
            },
        }),
{
    genuine_copies_are_judged_so(sel, env, offer, recent);
}

/// With aggressive claims a genuine Wayland copy is claimed for on the X11 side
/// at once, whatever the selection proxies at present.
pub proof fn every_aggressive_wayland_copy_claims(
    sel: SelView,
    env: Env,
    kind: SelKind,
    offer: OfferView,
    recent: bool,
)
    requires
        is_genuine_copy(sel, env, offer, recent),
        env.running,
        env.aggressive_claims,
    ensures
        sel.after_wayland_selection(env, kind, Some(offer), recent) == (Turn {
            sel: SelView {
                broker: BrokerView {
                    state: StateView::WaylandApp(offer.types),
                    epoch: sel.broker.epoch + 1,
                },
                offer: Some(offer),
                wl_gen: sel.wl_gen + 1,
                wayland_owned: true,
                sensitive: offer.types.contains("x-kde-passwordManagerHint"@),
                x11_owner: None,
                snapshot: None,
                capture: None,
                parked: seq![],
                ..sel
            },
            acts: (match sel.offer {
                Some(old) => seq![ActionView::DestroyOffer(old.id)],
                None => seq![],
            }) + selection::refusals(sel.parked).push(
                ActionView::InternTargets(
                    kind,
                    sel.broker.epoch + 1,
                    selection::row_names(selection::proxy_rows(offer.types)),
                ),
            ),
        }),
{
    genuine_copies_are_judged_so(sel, env, offer, recent);
    let changed = SelView {
        offer: Some(offer),
        wl_gen: sel.wl_gen + 1,
        wayland_owned: true,
        sensitive: offer.types.contains("x-kde-passwordManagerHint"@),
        x11_owner: None,
        ..sel
    };
    wayland_takes(changed, env, kind, offer.types);
}

/// A genuine Wayland copy that neither side follows up is claimed for on the
/// X11 side when the gap window has passed, with the types of that very copy,
/// whatever the selection proxied before.
pub proof fn every_wayland_copy_is_claimed_for_after_the_gap(
    sel: SelView,
    env: Env,
    kind: SelKind,
    offer: OfferView,
    recent: bool,
)
    requires
        is_genuine_copy(sel, env, offer, recent),
        !env.aggressive_claims,
    ensures
        ({
            let copied = sel.after_wayland_selection(env, kind, Some(offer), recent).sel;
            let filled = copied.after_gap(env, kind);
            &&& filled.sel == SelView {
                broker: BrokerView {
                    state: StateView::WaylandApp(offer.types),
                    epoch: sel.broker.epoch + 1,
                },
                offer: Some(offer),
                wl_gen: sel.wl_gen + 1,
                wayland_owned: true,
                sensitive: offer.types.contains("x-kde-passwordManagerHint"@),
                fill: None,
                x11_owner: None,
                snapshot: None,
                capture: None,
                parked: seq![],
                ..sel
            }
            &&& filled.acts == selection::refusals(sel.parked).push(
                ActionView::InternTargets(
                    kind,
                    sel.broker.epoch + 1,
                    selection::row_names(selection::proxy_rows(offer.types)),
                ),
            )
        }),
{
    if env.running {
        every_wayland_copy_waits_its_turn(sel, env, kind, offer, recent);
    } else {
        every_early_wayland_copy_waits_for_the_start(sel, env, kind, offer, recent);
    }
    let copied = sel.after_wayland_selection(env, kind, Some(offer), recent).sel;
    wayland_takes(SelView { fill: None, x11_owner: None, ..copied }, env, kind, offer.types);
}

/// The bridge's own X11 claim mirrored back: an offer whose content is part of
/// the claim, and which carries X11 protocol names or came soon after the
/// claim, is destroyed, and nothing else happens.
pub proof fn own_claims_coming_back_are_destroyed(
    sel: SelView,
    env: Env,
    kind: SelKind,
    offer: OfferView,
    recent: bool,
)
    requires
        sel.claim is Some,
        exists|i: int| 0 <= i < offer.types.len() && !mime::is_protocol(#[trigger] offer.types[i]),
        forall|i: int|
            0 <= i < offer.types.len() && !mime::is_protocol(#[trigger] offer.types[i])
                ==> sel.claim->0.types.contains(offer.types[i]),
        recent || exists|i: int|
            0 <= i < offer.types.len() && mime::is_protocol(#[trigger] offer.types[i]),
    ensures
        sel.after_wayland_selection(env, kind, Some(offer), recent) == (Turn {
            sel,
            acts: seq![ActionView::DestroyOffer(offer.id)],
        }),
{
    let content = mime::content(offer.types);
    let i = choose|i: int|
        0 <= i < offer.types.len() && !mime::is_protocol(#[trigger] offer.types[i]);
    mime::content_is_the_rest(offer.types, offer.types[i]);
    assert(offer.types.contains(offer.types[i]));
    assert(content.len() > 0);
    assert forall|j: int| 0 <= j < content.len() implies sel.claim->0.types.contains(
        #[trigger] content[j],
    ) by {
        assert(content.contains(content[j]));
        mime::content_is_the_rest(offer.types, content[j]);
        let k = choose|k: int| 0 <= k < offer.types.len() && offer.types[k] == content[j];
        assert(!mime::is_protocol(offer.types[k]));
    }
    assert(selection::is_echo_of(sel.claim->0.types, offer.types, recent));
}

/// An offer with X11 protocol names that is not the bridge's own claim is
/// another bridge's mirror of the X11 side: counted and destroyed, and nothing
/// is bridged.
pub proof fn mirrors_are_counted_and_destroyed(
    sel: SelView,
    env: Env,
    kind: SelKind,
    offer: OfferView,
    recent: bool,
)
    requires
        exists|i: int| 0 <= i < offer.types.len() && mime::is_protocol(#[trigger] offer.types[i]),
        sel.claim is None || (forall|i: int|
            0 <= i < offer.types.len() ==> mime::is_protocol(#[trigger] offer.types[i])) || exists|
            i: int,
        |
            0 <= i < offer.types.len() && !mime::is_protocol(#[trigger] offer.types[i])
                && !sel.claim->0.types.contains(offer.types[i]),
    ensures
        sel.after_wayland_selection(env, kind, Some(offer), recent) == (Turn {
            sel: SelView { offer: None, wl_gen: sel.wl_gen + 1, wayland_owned: true, ..sel },
            acts: (match sel.offer {
                Some(old) => seq![ActionView::DestroyOffer(old.id)],
                None => seq![],
            }).push(ActionView::DestroyOffer(offer.id)),
        }),
{
    mime::content_is_the_rest(offer.types, seq![]);
    assert(mime::is_mirror(offer.types));
    if sel.claim is Some {
        let content = mime::content(offer.types);
        if forall|i: int| 0 <= i < offer.types.len() ==> mime::is_protocol(#[trigger] offer.types[i]) {
            if content.len() > 0 {
                assert(content.contains(content[0]));
                mime::content_is_the_rest(offer.types, content[0]);
                let k = choose|k: int| 0 <= k < offer.types.len() && offer.types[k] == content[0];
                assert(mime::is_protocol(offer.types[k]));
            }
        } else {
            let i = choose|i: int|
                0 <= i < offer.types.len() && !mime::is_protocol(#[trigger] offer.types[i])
                    && !sel.claim->0.types.contains(offer.types[i]);
            mime::content_is_the_rest(offer.types, offer.types[i]);
            assert(offer.types.contains(offer.types[i]));
            let k = choose|k: int| 0 <= k < content.len() && content[k] == offer.types[i];
            assert(!sel.claim->0.types.contains(content[k]));
        }
    }
}

/// A secret that is not to be bridged: the offer is destroyed and the X11 side
/// is cleared of what it proxied.
pub proof fn skipped_secrets_clear_the_x11_side(
    sel: SelView,
    env: Env,
    kind: SelKind,
    offer: OfferView,
    recent: bool,
)
    requires
        env.skip_sensitive,
        offer.types.contains("x-kde-passwordManagerHint"@),
        forall|i: int|
            0 <= i < offer.types.len() ==> !mime::is_protocol(#[trigger] offer.types[i]),
        sel.claim is Some && recent ==> exists|i: int|
            0 <= i < offer.types.len() && !sel.claim->0.types.contains(#[trigger] offer.types[i]),
    ensures
        ({
            let turn = sel.after_wayland_selection(env, kind, Some(offer), recent);
            let gone = (match sel.offer {
                Some(old) => seq![ActionView::DestroyOffer(old.id)],
                None => seq![],
            }).push(ActionView::DestroyOffer(offer.id)) + selection::refusals(sel.parked);
            let cleared = SelView {
                broker: BrokerView { state: StateView::Idle, epoch: sel.broker.epoch + 1 },
                offer: None,
                wl_gen: sel.wl_gen + 1,
                wayland_owned: true,
                sensitive: true,
                snapshot: None,
                capture: None,
                parked: seq![],
                ..sel
            };
            if sel.broker.state is WaylandApp {
                &&& turn.sel == SelView {
                    targets: seq![],
                    claim: None,
                    owned_since: None,
                    ..cleared
                }
                &&& turn.acts == gone + match sel.owned_since {
                    Some(time) => seq![ActionView::ReleaseX11(kind, time)],
                    None => seq![],
                }
            } else {
                &&& turn.sel == cleared
                &&& turn.acts == gone
            }
        }),
{
    let hint = "x-kde-passwordManagerHint"@;
    mime::content_is_the_rest(offer.types, hint);
    if sel.claim is Some && recent {
        let i = choose|i: int|
            0 <= i < offer.types.len() && !sel.claim->0.types.contains(#[trigger] offer.types[i]);
        assert(mime::content(offer.types)[i] == offer.types[i]);
    }
    wayland_leaves(
        SelView {
            offer: None,
            wl_gen: sel.wl_gen + 1,
            wayland_owned: true,
            sensitive: true,
            ..sel
        },
        env,
        kind,
    );
    let turn = sel.after_wayland_selection(env, kind, Some(offer), recent);
    let gone = (match sel.offer {
        Some(old) => seq![ActionView::DestroyOffer(old.id)],
        None => seq![],
    }).push(ActionView::DestroyOffer(offer.id));
    assert(turn.acts =~= gone + selection::refusals(sel.parked) + (
    if sel.broker.state is WaylandApp && sel.owned_since is Some {
        seq![ActionView::ReleaseX11(kind, sel.owned_since->0)]
    } else {
        seq![]
    }));
}

/// Where the bridge only fills gaps, an offer that comes while an X11 copy is
/// waiting is the answer of another bridge: the wait is over, and the offer is
/// kept but not bridged.
pub proof fn answers_end_the_wait(
    sel: SelView,
    env: Env,
    kind: SelKind,
    offer: OfferView,
    recent: bool,
)
    requires
        !env.aggressive_claims,
        sel.fill is Some,
        !sel.fill->0.fill_x11,
        forall|i: int|
            0 <= i < offer.types.len() ==> !mime::is_protocol(#[trigger] offer.types[i]),
        sel.claim is Some && recent ==> offer.types.len() == 0 || exists|i: int|
            0 <= i < offer.types.len() && !sel.claim->0.types.contains(#[trigger] offer.types[i]),
        env.skip_sensitive ==> !offer.types.contains("x-kde-passwordManagerHint"@),
    ensures
        sel.after_wayland_selection(env, kind, Some(offer), recent) == (Turn {
            sel: SelView {
                offer: Some(offer),
                wl_gen: sel.wl_gen + 1,
                wayland_owned: true,
                sensitive: offer.types.contains("x-kde-passwordManagerHint"@),
                fill: None,
                ..sel
            },
            acts: match sel.offer {
                Some(old) => seq![ActionView::DestroyOffer(old.id)],
                None => seq![],
            },
        }),
{
    mime::content_is_the_rest(offer.types, seq![]);
    if sel.claim is Some && recent && offer.types.len() > 0 {
        let i = choose|i: int|
            0 <= i < offer.types.len() && !sel.claim->0.types.contains(#[trigger] offer.types[i]);
        assert(mime::content(offer.types)[i] == offer.types[i]);
    }
}

/// An offer without any type clears the X11 side of what it proxied, and is
/// itself kept; so does a Wayland side that nobody owns any more, unless what
/// it held was captured.
pub proof fn empty_offers_clear_the_x11_side(
    sel: SelView,
    env: Env,
    kind: SelKind,
    offer: Option<OfferView>,
    recent: bool,
)
    requires
        offer matches Some(o) ==> o.types.len() == 0 && (env.aggressive_claims || sel.fill is None
            || sel.fill->0.fill_x11),
        offer is None ==> !(sel.broker.state is WaylandApp) || (sel.capture is None
            && sel.snapshot is None),
    ensures
        ({
            let turn = sel.after_wayland_selection(env, kind, offer, recent);
            let gone = (match sel.offer {
                Some(old) => seq![ActionView::DestroyOffer(old.id)],
                None => seq![],
            }) + selection::refusals(sel.parked);
            let cleared = SelView {
                broker: BrokerView { state: StateView::Idle, epoch: sel.broker.epoch + 1 },
                offer,
                wl_gen: sel.wl_gen + 1,
                wayland_owned: offer is Some,
                sensitive: false,
                snapshot: None,
                capture: None,
                parked: seq![],
                ..sel
            };
            if sel.broker.state is WaylandApp {
                &&& turn.sel == SelView {
                    targets: seq![],
                    claim: None,
                    owned_since: None,
                    ..cleared
                }
                &&& turn.acts == gone + match sel.owned_since {
                    Some(time) => seq![ActionView::ReleaseX11(kind, time)],
                    None => seq![],
                }
            } else {
                &&& turn.sel == cleared
                &&& turn.acts == gone
            }
        }),
{
    if offer is Some {
        mime::content_is_the_rest(offer->0.types, seq![]);
    }
    wayland_leaves(
        SelView {
            offer,
            wl_gen: sel.wl_gen + 1,
            wayland_owned: offer is Some,
            sensitive: false,
            ..sel
        },
        env,
        kind,
    );
    let turn = sel.after_wayland_selection(env, kind, offer, recent);
    let gone = match sel.offer {
        Some(old) => seq![ActionView::DestroyOffer(old.id)],
        None => seq![],
    };
    assert(turn.acts =~= gone + selection::refusals(sel.parked) + (
    if sel.broker.state is WaylandApp && sel.owned_since is Some {
        seq![ActionView::ReleaseX11(kind, sel.owned_since->0)]
    } else {
        seq![]
    }));
}

/// A Wayland owner that goes away while its content is captured, or being
/// captured, leaves the proxy as it is: only its offer is gone.
pub proof fn captured_sources_may_go(sel: SelView, env: Env, kind: SelKind, recent: bool)
    requires
        sel.broker.state is WaylandApp,
        sel.capture is Some || sel.snapshot is Some,
    ensures
        sel.after_wayland_selection(env, kind, None, recent) == (Turn {
            sel: SelView { offer: None, wl_gen: sel.wl_gen + 1, wayland_owned: false, ..sel },
            acts: match sel.offer {
                Some(old) => seq![ActionView::DestroyOffer(old.id)],
                None => seq![],
            },
        }),
{
}

/// A gap that is no more: either side changed since the copy, so nothing is
/// claimed and the wait is over. Without a wait nothing happens at all.
pub proof fn gaps_that_closed_are_left_alone(sel: SelView, env: Env, kind: SelKind)
    ensures
        sel.fill is None ==> sel.after_gap(env, kind) == (Turn { sel, acts: seq![] }),
        sel.fill is Some && (sel.fill->0.wl_gen != sel.wl_gen || sel.fill->0.x11_gen
            != sel.x11_gen) ==> sel.after_gap(env, kind) == (Turn {
            sel: SelView { fill: None, ..sel },
            acts: seq![],
        }),
{
}

/// A gap that is still there is filled. A Wayland copy is claimed for on the
/// X11 side with its types; an X11 copy has its owner remembered and asked for
/// its targets.
pub proof fn gaps_that_last_are_filled(sel: SelView, env: Env, kind: SelKind)
    requires
        sel.fill is Some,
        sel.fill->0.wl_gen == sel.wl_gen,
        sel.fill->0.x11_gen == sel.x11_gen,
    ensures
        sel.fill->0.fill_x11 ==> sel.after_gap(env, kind) == (Turn {
            sel: SelView {
                broker: BrokerView {
                    state: StateView::WaylandApp(sel.fill->0.types),
                    epoch: sel.broker.epoch + 1,
                },
                fill: None,
                x11_owner: None,
                snapshot: None,
                capture: None,
                parked: seq![],
                ..sel
            },
            acts: selection::refusals(sel.parked).push(
                ActionView::InternTargets(
                    kind,
                    sel.broker.epoch + 1,
                    selection::row_names(selection::proxy_rows(sel.fill->0.types)),
                ),
            ),
        }),
        !sel.fill->0.fill_x11 ==> sel.after_gap(env, kind) == (Turn {
            sel: SelView {
                broker: BrokerView {
                    state: StateView::X11App(seq![]),
                    epoch: sel.broker.epoch + 1,
                },
                fill: None,
                x11_owner: sel.fill->0.owner,
                snapshot: None,
                capture: None,
                parked: seq![],
                pending_targets: Some(sel.broker.epoch + 1),
                ..sel
            },
            acts: selection::refusals(sel.parked).push(ActionView::FetchTargets(kind)),
        }),
{
    let unset = SelView { fill: None, ..sel };
    wayland_takes(SelView { x11_owner: None, ..unset }, env, kind, sel.fill->0.types);
    x11_takes(SelView { x11_owner: sel.fill->0.owner, ..unset }, env, kind);
}

/// A data source of the bridge that the compositor cancels is destroyed. Only
/// if it is the present one is the Wayland claim gone with it.
pub proof fn cancelled_sources_are_destroyed(sel: SelView, kind: SelKind, source: nat)
    ensures
        sel.after_source_cancelled(kind, source).acts == seq![
            ActionView::DestroySource(kind, source),
        ],
        sel.source == Some(source) ==> sel.after_source_cancelled(kind, source).sel == (SelView {
            source: None,
            ..sel
        }),
        sel.source != Some(source) ==> sel.after_source_cancelled(kind, source).sel == sel,
{
}

/// An X11 application copies: where the bridge only fills gaps, and no Wayland
/// copy is waiting, the copy waits to be filled in on the Wayland side, and the
/// gap timer is set. What is proxied at present makes no difference.
pub proof fn every_x11_copy_waits_its_turn(sel: SelView, env: Env, kind: SelKind, owner: u32)
    requires
        env.running,
        !env.aggressive_claims,
        env.wm_window != Some(owner),
        sel.fill is Some ==> !sel.fill->0.fill_x11,
    ensures
        sel.after_x11_owner(env, kind, owner, true) == (Turn {
            sel: SelView {
                x11_gen: sel.x11_gen + 1,
                fill: Some(
                    FillView {
                        fill_x11: false,
                        wl_gen: sel.wl_gen,
                        x11_gen: sel.x11_gen + 1,
                        types: seq![],
                        owner: Some(owner),
                    },
                ),
                ..sel
            },
            acts: seq![ActionView::ArmGapTimer(kind)],
        }),
{
}

/// Such an X11 copy that neither side follows up is proxied when the gap window
/// has passed: its owner is asked for its targets.
pub proof fn every_x11_copy_is_proxied_after_the_gap(
    sel: SelView,
    env: Env,
    kind: SelKind,
    owner: u32,
)
    requires
        env.running,
        !env.aggressive_claims,
        env.wm_window != Some(owner),
        sel.fill is Some ==> !sel.fill->0.fill_x11,
    ensures
        sel.after_x11_owner(env, kind, owner, true).sel.after_gap(env, kind) == (Turn {
            sel: SelView {
                broker: BrokerView {
                    state: StateView::X11App(seq![]),
                    epoch: sel.broker.epoch + 1,
                },
                x11_gen: sel.x11_gen + 1,
                fill: None,
                x11_owner: Some(owner),
                snapshot: None,
                capture: None,
                parked: seq![],
                pending_targets: Some(sel.broker.epoch + 1),
                ..sel
            },
            acts: selection::refusals(sel.parked).push(ActionView::FetchTargets(kind)),
        }),
{
    let copied = sel.after_x11_owner(env, kind, owner, true).sel;
    gaps_that_last_are_filled(copied, env, kind);
}

/// With aggressive claims, or before the event loop runs, an X11 copy is
/// proxied at once, unless it is the answer to a Wayland copy that waits.
pub proof fn aggressive_x11_copies_are_proxied(sel: SelView, env: Env, kind: SelKind, owner: u32)
    requires
        env.aggressive_claims || (!env.running && (sel.fill is Some ==> !sel.fill->0.fill_x11)),
        env.wm_window != Some(owner),
    ensures
        sel.after_x11_owner(env, kind, owner, true) == (Turn {
            sel: SelView {
                broker: BrokerView {
                    state: StateView::X11App(seq![]),
                    epoch: sel.broker.epoch + 1,
                },
                x11_gen: sel.x11_gen + 1,
                x11_owner: Some(owner),
                snapshot: None,
                capture: None,
                parked: seq![],
                pending_targets: Some(sel.broker.epoch + 1),
                ..sel
            },
            acts: selection::refusals(sel.parked).push(ActionView::FetchTargets(kind)),
        }),
{
    x11_takes(
        SelView { x11_gen: sel.x11_gen + 1, x11_owner: Some(owner), ..sel },
        env,
        kind,
    );
}

/// An X11 owner change that comes while a Wayland copy is waiting ends the
/// wait: the X11 side has updated by itself.
pub proof fn x11_answers_end_the_wait(sel: SelView, env: Env, kind: SelKind, owner: u32)
    requires
        !env.aggressive_claims,
        env.wm_window != Some(owner),
        sel.fill is Some,
        sel.fill->0.fill_x11,
    ensures
        sel.after_x11_owner(env, kind, owner, true) == (Turn {
            sel: SelView { x11_gen: sel.x11_gen + 1, fill: None, ..sel },
            acts: seq![],
        }),
{
}

/// An X11 claim of another bridge is counted. With aggressive claims, a claim
/// of this bridge that it took is taken back, if this one was not taken back
/// before; otherwise nothing more happens.
pub proof fn bridge_claims_are_counted(sel: SelView, env: Env, kind: SelKind, owner: u32)
    requires
        env.wm_window == Some(owner),
    ensures
        env.aggressive_claims && sel.broker.state is WaylandApp && sel.reclaimed != Some(
            sel.broker.epoch,
        ) ==> sel.after_x11_owner(env, kind, owner, true) == (Turn {
            sel: SelView {
                x11_gen: sel.x11_gen + 1,
                reclaimed: Some(sel.broker.epoch),
                ..sel
            },
            acts: seq![ActionView::ReclaimX11(kind)],
        }),
        !env.aggressive_claims || !(sel.broker.state is WaylandApp) || sel.reclaimed == Some(
            sel.broker.epoch,
        ) ==> sel.after_x11_owner(env, kind, owner, true) == (Turn {
            sel: SelView { x11_gen: sel.x11_gen + 1, ..sel },
            acts: seq![],
        }),
{
}

/// An X11 owner that goes away ends its proxy, and the Wayland claim is given
/// up, unless an eager snapshot holds its content. Where no X11 owner is
/// proxied the change is only counted.
pub proof fn gone_x11_owners_end_their_proxy(sel: SelView, env: Env, kind: SelKind, owner: u32)
    ensures
        sel.broker.state is X11App && env.sync_mode is Eager && sel.snapshot is Some
            ==> sel.after_x11_owner(env, kind, owner, false) == (Turn {
            sel: SelView { x11_gen: sel.x11_gen + 1, ..sel },
            acts: seq![],
        }),
        sel.broker.state is X11App && !(env.sync_mode is Eager && sel.snapshot is Some)
            ==> sel.after_x11_owner(env, kind, owner, false) == (Turn {
            sel: SelView {
                broker: BrokerView { state: StateView::Idle, epoch: sel.broker.epoch + 1 },
                x11_gen: sel.x11_gen + 1,
                x11_owner: None,
                snapshot: None,
                capture: None,
                parked: seq![],
                source: None,
                ..sel
            },
            acts: selection::refusals(sel.parked) + match sel.source {
                Some(source) => seq![ActionView::ReleaseWayland(kind, source)],
                None => seq![],
            },
        }),
        !(sel.broker.state is X11App) ==> sel.after_x11_owner(env, kind, owner, false) == (Turn {
            sel: SelView { x11_gen: sel.x11_gen + 1, x11_owner: None, ..sel },
            acts: seq![],
        }),
{
    x11_leaves(SelView { x11_gen: sel.x11_gen + 1, x11_owner: None, ..sel }, env, kind);
}

/// A settled PRIMARY change on the X11 side: a new owner is asked for its
/// targets at once. One that went away ends its proxy, unless an eager
/// snapshot holds its content; where no X11 owner is proxied nothing happens.
pub proof fn settled_x11_primary_is_proxied(sel: SelView, env: Env, kind: SelKind)
    ensures
        sel.after_x11_primary(env, kind, true) == (Turn {
            sel: SelView {
                broker: BrokerView {
                    state: StateView::X11App(seq![]),
                    epoch: sel.broker.epoch + 1,
                },
                snapshot: None,
                capture: None,
                parked: seq![],
                pending_targets: Some(sel.broker.epoch + 1),
                ..sel
            },
            acts: selection::refusals(sel.parked).push(ActionView::FetchTargets(kind)),
        }),
        !(sel.broker.state is X11App) || (env.sync_mode is Eager && sel.snapshot is Some)
            ==> sel.after_x11_primary(env, kind, false) == (Turn { sel, acts: seq![] }),
        sel.broker.state is X11App && !(env.sync_mode is Eager && sel.snapshot is Some)
            ==> sel.after_x11_primary(env, kind, false) == (Turn {
            sel: SelView {
                broker: BrokerView { state: StateView::Idle, epoch: sel.broker.epoch + 1 },
                snapshot: None,
                capture: None,
                parked: seq![],
                source: None,
                ..sel
            },
            acts: selection::refusals(sel.parked) + match sel.source {
                Some(source) => seq![ActionView::ReleaseWayland(kind, source)],
                None => seq![],
            },
        }),
{
    x11_takes(sel, env, kind);
    x11_leaves(sel, env, kind);
}

/// An X11 application that takes the selection from the bridge ends what the
/// bridge proxied there; nothing is released, for there is nothing left to
/// release.
pub proof fn lost_claims_are_over(sel: SelView, env: Env, kind: SelKind)
    ensures
        sel.after_lost(env, kind) == (Turn {
            sel: SelView {
                broker: BrokerView { state: StateView::Idle, epoch: sel.broker.epoch + 1 },
                owned_since: None,
                claim: None,
                snapshot: None,
                capture: None,
                parked: seq![],
                ..sel
            },
            acts: selection::refusals(sel.parked),
        }),
{
    reveal(SelView::dispatched);
}

/// An answer to the request for targets is read, for the claim that asked, if
/// it names a property. A refusal leaves nothing to proxy: the Wayland claim
/// of the present owner is given up. An answer that nobody waits for does
/// nothing.
pub proof fn target_answers_are_read(sel: SelView, env: Env, kind: SelKind, property: u32)
    ensures
        sel.pending_targets is None ==> sel.after_targets_reply(env, kind, property) == (Turn {
            sel,
            acts: seq![],
        }),
        sel.pending_targets is Some && property != 0 ==> sel.after_targets_reply(
            env,
            kind,
            property,
        ) == (Turn {
            sel: SelView { pending_targets: None, ..sel },
            acts: seq![ActionView::ReadTargets(kind, sel.pending_targets->0)],
        }),
        sel.pending_targets == Some(sel.broker.epoch) && property == 0 && sel.broker.state is X11App
            ==> sel.after_targets_reply(env, kind, property) == (Turn {
            sel: SelView {
                broker: BrokerView { state: StateView::Idle, epoch: sel.broker.epoch },
                pending_targets: None,
                source: None,
                ..sel
            },
            acts: match sel.source {
                Some(source) => seq![ActionView::ReleaseWayland(kind, source)],
                None => seq![],
            },
        }),
        sel.pending_targets is Some && property == 0 && (sel.pending_targets != Some(
            sel.broker.epoch,
        ) || !(sel.broker.state is X11App)) ==> sel.after_targets_reply(env, kind, property)
            == (Turn { sel: SelView { pending_targets: None, ..sel }, acts: seq![] }),
{
    reveal(SelView::dispatched);
}

/// The targets of the present X11 owner are claimed for on the Wayland side: a
/// new data source takes the place of the old one and advertises what the
/// targets amount to. In eager mode, while the event loop runs, all of it is
/// fetched as well, one read for each advertised type, in order.
pub proof fn read_targets_are_claimed_for(
    sel: SelView,
    env: Env,
    kind: SelKind,
    list: Seq<Seq<char>>,
)
    requires
        sel.broker.state is X11App,
        mime::advertised(list).len() > 0,
        env.skip_sensitive ==> !list.contains("x-kde-passwordManagerHint"@),
    ensures
        ({
            let turn = sel.after_targets_read(env, kind, sel.broker.epoch, Some(list));
            let types = mime::advertised(list);
            &&& turn.sel == SelView {
                broker: BrokerView { state: StateView::X11App(types), epoch: sel.broker.epoch },
                sensitive: list.contains("x-kde-passwordManagerHint"@),
                plans: mime::read_plans(list),
                source: Some(sel.sources + 1),
                sources: sel.sources + 1,
                ..sel
            }
            &&& turn.acts == (match sel.source {
                Some(source) => seq![ActionView::DestroySource(kind, source)],
                None => seq![],
            }).push(ActionView::ClaimWayland(kind, sel.sources + 1, types)) + (
            if env.sync_mode is Eager && env.running {
                seq![
                    ActionView::EagerFetch(
                        kind,
                        sel.broker.epoch,
                        Seq::new(
                            types.len(),
                            |i: int|
                                ReadView {
                                    kind,
                                    mime: types[i],
                                    plan: selection::plan_at(mime::read_plans(list), types[i]),
                                    timeout: env.transfer_timeout,
                                },
                        ),
                    ),
                ]
            } else {
                seq![]
            })
        }),
{
    reveal(SelView::dispatched);
    let types = mime::advertised(list);
    let planned = SelView { plans: mime::read_plans(list), ..sel };
    assert(planned.all_reads(env, kind, types) =~= Seq::new(
        types.len(),
        |i: int|
            ReadView {
                kind,
                mime: types[i],
                plan: selection::plan_at(mime::read_plans(list), types[i]),
                timeout: env.transfer_timeout,
            },
    ));
    let marked = SelView {
        sensitive: list.contains("x-kde-passwordManagerHint"@),
        ..planned
    };
    assert(marked.all_reads(env, kind, types) =~= planned.all_reads(env, kind, types));
}

/// Each read of an eager fetch is the read that a paste of that type from the
/// new data source would make: of the same selection, with the same plan and
/// the same time limit, one for each advertised type, in order.
pub proof fn eager_reads_are_the_pastes_to_come(
    sel: SelView,
    env: Env,
    kind: SelKind,
    list: Seq<Seq<char>>,
    i: int,
)
    requires
        sel.broker.state is X11App,
        sel.snapshot is None,
        env.sync_mode is Eager,
        env.running,
        env.skip_sensitive ==> !list.contains("x-kde-passwordManagerHint"@),
        0 <= i < mime::advertised(list).len(),
    ensures
        ({
            let turn = sel.after_targets_read(env, kind, sel.broker.epoch, Some(list));
            &&& turn.acts.last() matches ActionView::EagerFetch(whose, epoch, reads) && {
                &&& whose == kind
                &&& epoch == sel.broker.epoch
                &&& reads.len() == mime::advertised(list).len()
                &&& reads[i].kind == kind
                &&& reads[i].mime == mime::advertised(list)[i]
                &&& reads[i].timeout == env.transfer_timeout
                &&& turn.sel.source matches Some(source) && SendView::Read(reads[i])
                    == turn.sel.send_plan(env, kind, source, mime::advertised(list)[i])
            }
        }),
{
    read_targets_are_claimed_for(sel, env, kind, list);
}

/// Without targets to proxy, the Wayland claim of the present X11 owner is
/// given up: there was nothing readable, nothing to advertise, or a secret
/// that is not to be bridged. A secret is remembered as one.
pub proof fn nothing_to_advertise_ends_the_claim(
    sel: SelView,
    env: Env,
    kind: SelKind,
    names: Option<Seq<Seq<char>>>,
)
    requires
        sel.broker.state is X11App,
        names matches Some(list) ==> mime::advertised(list).len() == 0 || (env.skip_sensitive
            && list.contains("x-kde-passwordManagerHint"@)),
    ensures
        ({
            let turn = sel.after_targets_read(env, kind, sel.broker.epoch, names);
            &&& turn.sel.broker == BrokerView { state: StateView::Idle, epoch: sel.broker.epoch }
            &&& turn.sel.source is None
            &&& turn.sel.sensitive == match names {
                Some(list) => list.contains("x-kde-passwordManagerHint"@),
                None => sel.sensitive,
            }
            &&& turn.sel == SelView {
                broker: turn.sel.broker,
                source: None,
                sensitive: turn.sel.sensitive,
                plans: if names is Some && !(env.skip_sensitive && turn.sel.sensitive) {
                    mime::read_plans(names->0)
                } else {
                    sel.plans
                },
                ..sel
            }
            &&& turn.acts == match sel.source {
                Some(source) => seq![ActionView::ReleaseWayland(kind, source)],
                None => seq![],
            }
        }),
{
    reveal(SelView::dispatched);
}

/// Targets of an owner that is no longer the one being proxied claim nothing.
pub proof fn late_target_names_claim_nothing(
    sel: SelView,
    env: Env,
    kind: SelKind,
    epoch: nat,
    names: Option<Seq<Seq<char>>>,
)
    requires
        epoch != sel.broker.epoch || !(sel.broker.state is X11App),
    ensures
        ({
            let turn = sel.after_targets_read(env, kind, epoch, names);
            &&& turn.acts.len() == 0
            &&& names is None ==> turn.sel == sel
            &&& names matches Some(list) ==> turn.sel == SelView {
                sensitive: list.contains("x-kde-passwordManagerHint"@),
                plans: if env.skip_sensitive && list.contains("x-kde-passwordManagerHint"@) {
                    sel.plans
                } else {
                    mime::read_plans(list)
                },
                ..sel
            }
        }),
{
    reveal(SelView::dispatched);
}

/// What a request for one of the text targets is answered with, while the
/// bridge owns the selection and proxies text: the bytes of the best text type
/// of the live offer, or of what was captured where the offer is gone, with no
/// transform, through the property that the request names, or, where it names
/// none, through the target. `UTF8_STRING` and `TEXT` get the bytes as they
/// are, `STRING` gets their Latin-1 form.
pub proof fn text_requests_get_the_text(
    sel: SelView,
    env: Env,
    req: SelectionRequest,
    types: Seq<Seq<char>>,
    mime: Seq<char>,
)
    requires
        sel.owned_since is Some,
        sel.broker.state == StateView::WaylandApp(types),
        mime::preferred_text(types) is Some,
        mime::preferred_text(
            if sel.offer is Some {
                sel.offer->0.types
            } else {
                types
            },
        ) == Some(mime),
        req.target == env.x11.atoms.utf8_string || req.target == env.x11.atoms.text || req.target
            == 31,
        req.target != env.x11.atoms.targets,
        req.target != env.x11.atoms.timestamp,
        req.target != env.x11.atoms.multiple,
    ensures
        sel.request_verdict(env, req) == RequestVerdict::Content(
            PasteView {
                req,
                property: if req.property == 0 {
                    req.target
                } else {
                    req.property
                },
                mime,
                reply_type: if req.target == 31 {
                    31
                } else {
                    env.x11.atoms.utf8_string
                },
                conversion: if req.target == 31 {
                    Conv::Utf8ToLatin1
                } else {
                    Conv::Verbatim
                },
                transform: Transform::Identity,
            },
        ),
{
}

/// A request for a target that a table row stands for is answered with the type
/// of that row, edited as the row says, under the target as its type. A target
/// that no row stands for is refused.
pub proof fn row_requests_get_the_row(sel: SelView, env: Env, req: SelectionRequest)
    requires
        sel.owned_since is Some,
        sel.broker.state is WaylandApp && mime::preferred_text(
            sel.broker.state->WaylandApp_0,
        ) is Some ==> req.target != env.x11.atoms.utf8_string && req.target != env.x11.atoms.text
            && req.target != 31,
        req.target != env.x11.atoms.targets,
        req.target != env.x11.atoms.timestamp,
        req.target != env.x11.atoms.multiple,
    ensures
        selection::target_at(sel.targets, req.target) is None ==> sel.request_verdict(env, req)
            == RequestVerdict::Refuse,
        selection::target_at(sel.targets, req.target) matches Some((mime, transform))
            ==> sel.request_verdict(env, req) == RequestVerdict::Content(
            PasteView {
                req,
                property: if req.property == 0 {
                    req.target
                } else {
                    req.property
                },
                mime,
                reply_type: req.target,
                conversion: Conv::Verbatim,
                transform,
            },
        ),
{
    nothing_has_no_text();
}

proof fn nothing_has_no_text()
    ensures
        mime::preferred_text(seq![]) is None,
{
    mime::the_best_text_is_read(seq![], 0);
    if let Some(t) = mime::preferred_text(seq![]) {
        assert(Seq::<Seq<char>>::empty().contains(t));
    }
}

/// What a request is answered with that names no content: the list of targets
/// is the two that every owner has, the three text targets where text is
/// proxied, and one for each row of the table; the time is that of the claim.
/// Several targets at once are refused, and so is everything while the bridge
/// does not own the selection.
pub proof fn housekeeping_requests_are_answered(
    sel: SelView,
    env: Env,
    kind: SelKind,
    req: SelectionRequest,
)
    ensures
        ({
            let atoms = env.x11.atoms;
            let turn = sel.after_request(env, kind, req);
            let property = if req.property == 0 {
                req.target
            } else {
                req.property
            };
            let refused = Turn {
                sel,
                acts: seq![
                    ActionView::Notify(
                        (SelectionNotify {
                            time: req.time,
                            requestor: req.requestor,
                            selection: req.selection,
                            target: req.target,
                            property: 0,
                        }),
                    ),
                ],
            };
            &&& sel.owned_since is None ==> turn == refused
            &&& sel.owned_since is Some && req.target == atoms.targets ==> turn == (Turn {
                sel,
                acts: seq![
                    ActionView::ReplyAtoms(
                        req,
                        property,
                        4,
                        seq![atoms.targets, atoms.timestamp] + (if sel.broker.state is WaylandApp
                            && mime::preferred_text(sel.broker.state->WaylandApp_0) is Some {
                            seq![atoms.utf8_string, atoms.text, 31u32]
                        } else {
                            seq![]
                        }) + Seq::new(sel.targets.len(), |i: int| sel.targets[i].0),
                    ),
                ],
            })
            &&& sel.owned_since is Some && req.target != atoms.targets && req.target
                == atoms.timestamp ==> turn == (Turn {
                sel,
                acts: seq![
                    ActionView::ReplyAtoms(req, property, 19, seq![sel.owned_since->0]),
                ],
            })
            &&& sel.owned_since is Some && req.target != atoms.targets && req.target
                != atoms.timestamp && req.target == atoms.multiple ==> turn == refused
        }),
{
    let listed = Seq::new(sel.targets.len(), |i: int| sel.targets[i].0);
    assert(sel.targets.map_values(|t: (u32, Seq<char>, Transform)| t.0) =~= listed);
    nothing_has_no_text();
}

/// Where a paste gets its bytes. While the capture of the present claim is on
/// its way the paste is parked behind those before it. Otherwise the snapshot
/// serves it if it has the type, or else the live offer if that has it, or
/// else it is refused. The reply is for the same paste of the same selection,
/// under the time limit that is set; the selection does not change.
pub proof fn pastes_are_served_from_the_first_that_has_them(
    sel: SelView,
    env: Env,
    kind: SelKind,
    paste: PasteView,
)
    ensures
        ({
            let turn = sel.after_paste(env, kind, paste);
            let reply = ReplyView { kind, paste, timeout: env.transfer_timeout };
            let captured = sel.snapshot is Some && sel.snapshot->0.data.contains_key(paste.mime);
            let offered = sel.offer is Some && sel.offer->0.types.contains(paste.mime);
            &&& sel.capture == Some(sel.broker.epoch) ==> turn == (Turn {
                sel: SelView {
                    parked: sel.parked.push(ParkedView { epoch: sel.broker.epoch, paste }),
                    ..sel
                },
                acts: seq![],
            })
            &&& sel.capture != Some(sel.broker.epoch) && captured ==> turn == (Turn {
                sel,
                acts: seq![ActionView::ServeSnapshot(reply, sel.snapshot->0)],
            })
            &&& sel.capture != Some(sel.broker.epoch) && !captured && offered ==> turn == (Turn {
                sel,
                acts: seq![ActionView::ReadOffer(reply, sel.offer->0.id)],
            })
            &&& sel.capture != Some(sel.broker.epoch) && !captured && !offered ==> turn == (Turn {
                sel,
                acts: seq![
                    ActionView::Notify(
                        (SelectionNotify {
                            time: paste.req.time,
                            requestor: paste.req.requestor,
                            selection: paste.req.selection,
                            target: paste.req.target,
                            property: 0,
                        }),
                    ),
                ],
            })
        }),
{
}

/// A request for text, from the request to what it asks for: the reply names
/// the text type that was chosen, no transform, and the Latin-1 form for
/// `STRING` alone, be it from the snapshot, from the live offer or parked.
pub proof fn text_pastes_are_unchanged(
    sel: SelView,
    env: Env,
    kind: SelKind,
    req: SelectionRequest,
    types: Seq<Seq<char>>,
    mime: Seq<char>,
)
    requires
        sel.owned_since is Some,
        sel.broker.state == StateView::WaylandApp(types),
        mime::preferred_text(types) is Some,
        mime::preferred_text(
            if sel.offer is Some {
                sel.offer->0.types
            } else {
                types
            },
        ) == Some(mime),
        req.target == env.x11.atoms.utf8_string || req.target == env.x11.atoms.text || req.target
            == 31,
        req.target != env.x11.atoms.targets,
        req.target != env.x11.atoms.timestamp,
        req.target != env.x11.atoms.multiple,
    ensures
        ({
            let turn = sel.after_request(env, kind, req);
            let paste = PasteView {
                req,
                property: if req.property == 0 {
                    req.target
                } else {
                    req.property
                },
                mime,
                reply_type: if req.target == 31 {
                    31
                } else {
                    env.x11.atoms.utf8_string
                },
                conversion: if req.target == 31 {
                    Conv::Utf8ToLatin1
                } else {
                    Conv::Verbatim
                },
                transform: Transform::Identity,
            };
            let reply = ReplyView { kind, paste, timeout: env.transfer_timeout };
            if sel.capture == Some(sel.broker.epoch) {
                &&& turn.acts.len() == 0
                &&& turn.sel == SelView {
                    parked: sel.parked.push(ParkedView { epoch: sel.broker.epoch, paste }),
                    ..sel
                }
            } else {
                &&& turn.sel == sel
                &&& turn.acts.len() == 1
                &&& sel.snapshot is Some && sel.snapshot->0.data.contains_key(mime)
                    ==> turn.acts[0] == ActionView::ServeSnapshot(reply, sel.snapshot->0)
                &&& !(sel.snapshot is Some && sel.snapshot->0.data.contains_key(mime))
                    && sel.offer is Some ==> turn.acts[0] == ActionView::ReadOffer(
                    reply,
                    sel.offer->0.id,
                )
                &&& !(sel.snapshot is Some && sel.snapshot->0.data.contains_key(mime))
                    && sel.offer is None ==> turn.acts[0] == ActionView::Notify(
                    SelectionNotify {
                        time: req.time,
                        requestor: req.requestor,
                        selection: req.selection,
                        target: req.target,
                        property: 0,
                    },
                )
            }
        }),
{
    text_requests_get_the_text(sel, env, req, types, mime);
    mime::the_best_text_is_read(
        if sel.offer is Some {
            sel.offer->0.types
        } else {
            types
        },
        0,
    );
}

/// A request for text where the live offer has none that can be read is
/// refused.
pub proof fn text_that_went_is_refused(
    sel: SelView,
    env: Env,
    kind: SelKind,
    req: SelectionRequest,
    types: Seq<Seq<char>>,
)
    requires
        sel.owned_since is Some,
        sel.broker.state == StateView::WaylandApp(types),
        mime::preferred_text(types) is Some,
        sel.offer is Some,
        mime::preferred_text(sel.offer->0.types) is None,
        req.target == env.x11.atoms.utf8_string || req.target == env.x11.atoms.text || req.target
            == 31,
        req.target != env.x11.atoms.targets,
        req.target != env.x11.atoms.timestamp,
    ensures
        sel.after_request(env, kind, req) == (Turn {
            sel,
            acts: seq![
                ActionView::Notify(
                    (SelectionNotify {
                        time: req.time,
                        requestor: req.requestor,
                        selection: req.selection,
                        target: req.target,
                        property: 0,
                    }),
                ),
            ],
        }),
{
}

/// A request for a target of the table, from the request to what it asks for:
/// the reply names the type of the row and its transform, and leaves the bytes
/// otherwise as they are, be it from the snapshot, from the live offer or
/// parked. What neither has is refused, and so is a target without a row.
pub proof fn row_pastes_are_edited_as_the_row_says(
    sel: SelView,
    env: Env,
    kind: SelKind,
    req: SelectionRequest,
)
    requires
        sel.owned_since is Some,
        sel.broker.state is WaylandApp && mime::preferred_text(
            sel.broker.state->WaylandApp_0,
        ) is Some ==> req.target != env.x11.atoms.utf8_string && req.target != env.x11.atoms.text
            && req.target != 31,
        req.target != env.x11.atoms.targets,
        req.target != env.x11.atoms.timestamp,
        req.target != env.x11.atoms.multiple,
    ensures
        ({
            let turn = sel.after_request(env, kind, req);
            let row = selection::target_at(sel.targets, req.target);
            let (mime, transform) = row->0;
            let paste = PasteView {
                req,
                property: if req.property == 0 {
                    req.target
                } else {
                    req.property
                },
                mime,
                reply_type: req.target,
                conversion: Conv::Verbatim,
                transform,
            };
            let reply = ReplyView { kind, paste, timeout: env.transfer_timeout };
            let captured = sel.snapshot is Some && sel.snapshot->0.data.contains_key(mime);
            let offered = sel.offer is Some && sel.offer->0.types.contains(mime);
            let refused = ActionView::Notify(
                SelectionNotify {
                    time: req.time,
                    requestor: req.requestor,
                    selection: req.selection,
                    target: req.target,
                    property: 0,
                },
            );
            if row is None {
                turn == (Turn { sel, acts: seq![refused] })
            } else if sel.capture == Some(sel.broker.epoch) {
                turn == (Turn {
                    sel: SelView {
                        parked: sel.parked.push(ParkedView { epoch: sel.broker.epoch, paste }),
                        ..sel
                    },
                    acts: seq![],
                })
            } else if captured {
                turn == (Turn {
                    sel,
                    acts: seq![ActionView::ServeSnapshot(reply, sel.snapshot->0)],
                })
            } else if offered {
                turn == (Turn { sel, acts: seq![ActionView::ReadOffer(reply, sel.offer->0.id)] })
            } else {
                turn == (Turn { sel, acts: seq![refused] })
            }
        }),
{
    row_requests_get_the_row(sel, env, req);
}

/// The atoms of a claim came in: the table is made of them, what the live offer
/// has is captured while the event loop runs, and after that the X11 selection
/// is taken. Atoms of an older claim do nothing.
pub proof fn interned_claims_are_taken(
    sel: SelView,
    env: Env,
    kind: SelKind,
    epoch: nat,
    atoms: Seq<u32>,
    types: Seq<Seq<char>>,
)
    ensures
        epoch != sel.broker.epoch ==> sel.after_interned(env, kind, epoch, atoms) == (Turn {
            sel,
            acts: seq![],
        }),
        epoch == sel.broker.epoch && sel.broker.state == StateView::WaylandApp(types)
            ==> sel.after_interned(env, kind, epoch, atoms) == (Turn {
            sel: SelView {
                targets: selection::interned(atoms, selection::proxy_rows(types)),
                ..sel
            },
            acts: if env.running && sel.offer is Some && types.len() > 0 {
                seq![
                    ActionView::Capture(kind, epoch, sel.offer->0.id, types),
                    ActionView::ClaimX11(kind),
                ]
            } else {
                seq![ActionView::ClaimX11(kind)]
            },
        }),
        epoch == sel.broker.epoch && !(sel.broker.state is WaylandApp) ==> sel.after_interned(
            env,
            kind,
            epoch,
            atoms,
        ) == (Turn {
            sel: SelView { targets: seq![], ..sel },
            acts: seq![ActionView::ClaimX11(kind)],
        }),
{
    targets_follow_the_types(Seq::empty(), seq![]);
    mime::only_the_missing_file_format_is_made_up(Seq::empty());
    assert(selection::proxy_rows(Seq::empty()).len() == 0);
}

/// A capture that starts is remembered, for the present claim only.
pub proof fn started_captures_are_remembered(sel: SelView, epoch: nat)
    ensures
        epoch == sel.broker.epoch ==> sel.after_capture_started(epoch) == (SelView {
            capture: Some(epoch),
            ..sel
        }),
        epoch != sel.broker.epoch ==> sel.after_capture_started(epoch) == sel,
{
}

/// After the X11 selection was asked for, the bridge owns it since that time
/// exactly if its own window is the owner; the types it proxies are remembered
/// with the moment of the claim, so that the claim is known when it comes back.
pub proof fn claims_are_remembered(
    sel: SelView,
    env: Env,
    owner: u32,
    time: u32,
    at: Instant,
    types: Seq<Seq<char>>,
)
    ensures
        sel.after_reclaimed(env, owner, time) == (SelView {
            owned_since: if owner == env.x11.win {
                Some(time)
            } else {
                None
            },
            ..sel
        }),
        sel.broker.state == StateView::WaylandApp(types) && types.len() > 0 ==> sel.after_claimed(
            env,
            owner,
            time,
            at,
        ) == (SelView {
            owned_since: if owner == env.x11.win {
                Some(time)
            } else {
                None
            },
            claim: Some(ClaimView { at, types }),
            ..sel
        }),
        !(sel.broker.state is WaylandApp) || sel.broker.state == StateView::WaylandApp(seq![])
            ==> sel.after_claimed(env, owner, time, at) == (SelView {
            owned_since: if owner == env.x11.win {
                Some(time)
            } else {
                None
            },
            claim: None,
            ..sel
        }),
{
}

/// A snapshot of the present claim is kept, and kept out of swap; one of an
/// older claim is not. Where no capture of its claim is in flight nothing else
/// happens.
pub proof fn snapshots_are_kept_for_their_claim(
    sel: SelView,
    env: Env,
    kind: SelKind,
    snapshot: SnapshotView,
)
    requires
        sel.capture != Some(snapshot.epoch),
    ensures
        snapshot.epoch == sel.broker.epoch ==> sel.after_snapshot(env, kind, snapshot) == (Turn {
            sel: SelView { snapshot: Some(snapshot), ..sel },
            acts: seq![ActionView::LockSnapshot(snapshot)],
        }),
        snapshot.epoch != sel.broker.epoch ==> sel.after_snapshot(env, kind, snapshot) == (Turn {
            sel,
            acts: seq![],
        }),
{
}

/// What one parked paste asks for when the capture that it waits for lands.
pub open spec fn owed(
    sel: SelView,
    env: Env,
    kind: SelKind,
    snapshot: SnapshotView,
    paste: PasteView,
) -> ActionView {
    let reply = ReplyView { kind, paste, timeout: env.transfer_timeout };
    if snapshot.data.contains_key(paste.mime) {
        ActionView::ServeSnapshot(reply, snapshot)
    } else if sel.offer is Some && sel.offer->0.types.contains(paste.mime) {
        ActionView::ReadOffer(reply, sel.offer->0.id)
    } else {
        ActionView::Notify(
            SelectionNotify {
                time: paste.req.time,
                requestor: paste.req.requestor,
                selection: paste.req.selection,
                target: paste.req.target,
                property: 0,
            },
        )
    }
}

/// A capture of the present claim that lands answers every parked paste, in
/// the order in which they came: from the snapshot where it has the type, else
/// from the live offer where that has it, else with a refusal.
pub proof fn landed_captures_answer_the_parked(
    sel: SelView,
    env: Env,
    kind: SelKind,
    snapshot: SnapshotView,
)
    requires
        snapshot.epoch == sel.broker.epoch,
        sel.capture == Some(snapshot.epoch),
        forall|i: int|
            0 <= i < sel.parked.len() ==> (#[trigger] sel.parked[i]).epoch == sel.broker.epoch,
    ensures
        sel.after_snapshot(env, kind, snapshot) == (Turn {
            sel: SelView {
                snapshot: Some(snapshot),
                capture: None,
                parked: seq![],
                ..sel
            },
            acts: seq![ActionView::LockSnapshot(snapshot)] + Seq::new(
                sel.parked.len(),
                |i: int| owed(sel, env, kind, snapshot, sel.parked[i].paste),
            ),
        }),
{
    let landed = SelView { snapshot: Some(snapshot), capture: None, parked: seq![], ..sel };
    replay_owes_each(landed, env, kind, snapshot, sel.parked);
    assert(Seq::new(sel.parked.len(), |i: int| owed(sel, env, kind, snapshot, sel.parked[i].paste))
        =~= Seq::new(
        sel.parked.len(),
        |i: int| owed(landed, env, kind, snapshot, sel.parked[i].paste),
    ));
}

proof fn replay_owes_each(
    sel: SelView,
    env: Env,
    kind: SelKind,
    snapshot: SnapshotView,
    parked: Seq<ParkedView>,
)
    requires
        sel.snapshot == Some(snapshot),
        sel.capture is None,
        forall|i: int|
            0 <= i < parked.len() ==> (#[trigger] parked[i]).epoch == sel.broker.epoch,
    ensures
        sel.replayed(env, kind, parked) == Seq::new(
            parked.len(),
            |i: int| owed(sel, env, kind, snapshot, parked[i].paste),
        ),
    decreases parked.len(),
{
    if parked.len() > 0 {
        let front = parked.drop_last();
        assert forall|i: int| 0 <= i < front.len() implies (#[trigger] front[i]).epoch
            == sel.broker.epoch by {
            assert(front[i] == parked[i]);
        }
        replay_owes_each(sel, env, kind, snapshot, front);
        let last = parked[parked.len() - 1];
        assert(last.epoch == sel.broker.epoch);
        pastes_are_served_from_the_first_that_has_them(sel, env, kind, last.paste);
    }
}

/// At the start nothing is touched where a side is proxied already. Without a
/// foreign X11 owner a Wayland copy that waits is claimed for at once. With one
/// and a Wayland owner beside it, or with one that is another bridge, nothing
/// is bridged and no copy waits any longer. Otherwise the X11 owner is proxied.
pub proof fn starts_fill_the_missing_side(sel: SelView, env: Env, kind: SelKind, owner: u32)
    ensures
        ({
            let turn = sel.after_startup(env, kind, owner);
            let foreign = owner != 0 && owner != env.x11.win;
            let idle = sel.broker.state is Idle;
            &&& !idle ==> turn == (Turn { sel, acts: seq![] })
            &&& idle && !foreign && !(sel.fill is Some && sel.fill->0.fill_x11) ==> turn == (Turn {
                sel,
                acts: seq![],
            })
            &&& idle && !foreign && sel.fill is Some && sel.fill->0.fill_x11
                && sel.fill->0.wl_gen == sel.wl_gen && sel.fill->0.x11_gen == sel.x11_gen
                ==> turn == (Turn {
                sel: SelView {
                    broker: BrokerView {
                        state: StateView::WaylandApp(sel.fill->0.types),
                        epoch: sel.broker.epoch + 1,
                    },
                    fill: None,
                    x11_owner: None,
                    snapshot: None,
                    capture: None,
                    parked: seq![],
                    ..sel
                },
                acts: selection::refusals(sel.parked).push(
                    ActionView::InternTargets(
                        kind,
                        sel.broker.epoch + 1,
                        selection::row_names(selection::proxy_rows(sel.fill->0.types)),
                    ),
                ),
            })
            &&& idle && !foreign && sel.fill is Some && sel.fill->0.fill_x11 && (sel.fill->0.wl_gen
                != sel.wl_gen || sel.fill->0.x11_gen != sel.x11_gen) ==> turn == (Turn {
                sel: SelView { fill: None, ..sel },
                acts: seq![],
            })
            &&& idle && foreign && (sel.wayland_owned || env.wm_window == Some(owner)) ==> turn
                == (Turn { sel: SelView { fill: None, ..sel }, acts: seq![] })
            &&& idle && foreign && !sel.wayland_owned && env.wm_window != Some(owner) ==> turn
                == (Turn {
                sel: SelView {
                    broker: BrokerView {
                        state: StateView::X11App(seq![]),
                        epoch: sel.broker.epoch + 1,
                    },
                    x11_owner: Some(owner),
                    snapshot: None,
                    capture: None,
                    parked: seq![],
                    pending_targets: Some(sel.broker.epoch + 1),
                    ..sel
                },
                acts: selection::refusals(sel.parked).push(ActionView::FetchTargets(kind)),
            })
        }),
{
    x11_takes(SelView { x11_owner: Some(owner), ..sel }, env, kind);
    if sel.fill is Some && sel.fill->0.wl_gen == sel.wl_gen && sel.fill->0.x11_gen == sel.x11_gen {
        gaps_that_last_are_filled(sel, env, kind);
    }
}

/// Where a Wayland paste gets its bytes: nowhere from a data source that is not
/// the present one; else from the snapshot if it has the type; else by reading
/// that type of that selection from the X11 owner, with the plan for it and
/// under the time limit that is set.
pub proof fn wayland_pastes_come_from_the_present_source(
    sel: SelView,
    env: Env,
    kind: SelKind,
    source: nat,
    mime: Seq<char>,
)
    ensures
        ({
            let plan = sel.send_plan(env, kind, source, mime);
            let captured = sel.snapshot is Some && sel.snapshot->0.data.contains_key(mime);
            &&& sel.source != Some(source) ==> plan == SendView::Superseded
            &&& sel.source == Some(source) && captured ==> plan == SendView::Snapshot(
                sel.snapshot->0,
            )
            &&& sel.source == Some(source) && !captured ==> plan == SendView::Read(
                ReadView {
                    kind,
                    mime,
                    plan: selection::plan_at(sel.plans, mime),
                    timeout: env.transfer_timeout,
                },
            )
        }),
{
}

/// An offer is the bridge's own claim coming back exactly if it has content,
/// all of its content is part of the claim, and it carries X11 protocol names
/// or came within the echo window, which is ten milliseconds long.
pub proof fn what_an_echo_is(
    claimed: Seq<Seq<char>>,
    offered: Seq<Seq<char>>,
    recent: bool,
    age: u128,
)
    ensures
        selection::in_echo_window(age) <==> age <= 10_000_000,
        selection::is_echo_of(claimed, offered, recent) <==> {
            &&& exists|i: int| 0 <= i < offered.len() && !mime::is_protocol(#[trigger] offered[i])
            &&& forall|i: int|
                0 <= i < offered.len() && !mime::is_protocol(#[trigger] offered[i])
                    ==> claimed.contains(offered[i])
            &&& recent || exists|i: int|
                0 <= i < offered.len() && mime::is_protocol(#[trigger] offered[i])
        },
{
    let content = mime::content(offered);
    assert forall|j: int| 0 <= j < content.len() implies offered.contains(#[trigger] content[j])
        && !mime::is_protocol(content[j]) by {
        assert(content.contains(content[j]));
        mime::content_is_the_rest(offered, content[j]);
    }
    assert forall|i: int|
        0 <= i < offered.len() && !mime::is_protocol(#[trigger] offered[i]) implies content.contains(
        offered[i],
    ) by {
        assert(offered.contains(offered[i]));
        mime::content_is_the_rest(offered, offered[i]);
    }
    if content.len() > 0 {
        assert(offered.contains(content[0]));
        let k = choose|k: int| 0 <= k < offered.len() && offered[k] == content[0];
        assert(!mime::is_protocol(offered[k]));
    }
    if selection::is_echo_of(claimed, offered, recent) {
        assert forall|i: int|
            0 <= i < offered.len() && !mime::is_protocol(#[trigger] offered[i]) implies
            claimed.contains(offered[i]) by {
            assert(content.contains(offered[i]));
            let j = choose|j: int| 0 <= j < content.len() && content[j] == offered[i];
            assert(claimed.contains(content[j]));
        }
    }
    if forall|i: int|
        0 <= i < offered.len() && !mime::is_protocol(#[trigger] offered[i]) ==> claimed.contains(
            offered[i],
        ) {
        assert forall|j: int| 0 <= j < content.len() implies claimed.contains(
            #[trigger] content[j],
        ) by {
            assert(offered.contains(content[j]));
            let k = choose|k: int| 0 <= k < offered.len() && offered[k] == content[j];
            assert(!mime::is_protocol(offered[k]));
        }
    }
    if exists|i: int| 0 <= i < offered.len() && !mime::is_protocol(#[trigger] offered[i]) {
        let i = choose|i: int| 0 <= i < offered.len() && !mime::is_protocol(#[trigger] offered[i]);
        assert(content.contains(offered[i]));
    }
}

/// The X11 targets that proxy a Wayland owner: one for each type in order, but
/// for the three legacy text names, each read as it is; then the file list
/// format that is missing, if there is one.
pub proof fn targets_follow_the_types(types: Seq<Seq<char>>, more: Seq<char>)
    ensures
        x11::is_alias(more) <==> more == "UTF8_STRING"@ || more == "TEXT"@ || more == "STRING"@,
        x11::to_intern(Seq::empty()).len() == 0,
        x11::to_intern(types.push(more)) == (if more == "UTF8_STRING"@ || more == "TEXT"@ || more
            == "STRING"@ {
            x11::to_intern(types)
        } else {
            x11::to_intern(types).push(more)
        }),
        selection::proxy_rows(types) == Seq::new(
            x11::to_intern(types).len(),
            |i: int| (x11::to_intern(types)[i], x11::to_intern(types)[i], Transform::Identity),
        ) + mime::synthesized(types),
        selection::row_names(selection::proxy_rows(types)) == x11::to_intern(types) + Seq::new(
            mime::synthesized(types).len(),
            |i: int| mime::synthesized(types)[i].0,
        ),
{
    reveal(Seq::filter);
    assert(types.push(more).drop_last() =~= types);
}

/// One more row of a table hides what the table held for its atom, and nothing
/// else.
pub proof fn rows_replace_their_own_atom(
    targets: Seq<(u32, Seq<char>, Transform)>,
    row: (u32, Seq<char>, Transform),
    atom: u32,
)
    ensures
        selection::target_at(Seq::empty(), atom) is None,
        selection::target_at(targets.push(row), atom) == (if row.0 == atom {
            Some((row.1, row.2))
        } else {
            selection::target_at(targets, atom)
        }),
        selection::target_at(selection::with_target(targets, row), atom) == (if row.0 == atom {
            Some((row.1, row.2))
        } else {
            selection::target_at(targets, atom)
        }),
        forall|i: int|
            0 <= i < selection::with_target(targets, row).len() - 1 ==> (
            #[trigger] selection::with_target(targets, row)[i]).0 != row.0,
    decreases targets.len(),
{
    reveal(Seq::filter);
    assert(targets.push(row).drop_last() =~= targets);
    let kept = targets.filter(selection::other_than(row.0));
    assert(kept.push(row).drop_last() =~= kept);
    if targets.len() > 0 {
        let front = targets.drop_last();
        rows_replace_their_own_atom(front, row, atom);
        let less = front.filter(selection::other_than(row.0));
        assert(less.push(row).drop_last() =~= less);
        assert(selection::with_target(front, row) == less.push(row));
        assert(row.0 != atom ==> selection::target_at(less.push(row), atom)
            == selection::target_at(less, atom));
        assert(selection::with_target(targets, row) == kept.push(row));
        assert(row.0 != atom ==> selection::target_at(kept.push(row), atom)
            == selection::target_at(kept, atom));
        if targets.last().0 != row.0 {
            assert(kept =~= less.push(targets.last()));
            assert(kept.drop_last() =~= less);
        } else {
            assert(kept =~= less);
        }
        assert forall|i: int| 0 <= i < kept.len() implies (#[trigger] kept.push(row)[i]).0
            != row.0 by {
            if i < less.len() {
                assert(less.push(row)[i] == selection::with_target(front, row)[i]);
            }
        }
    }
}

/// The table of a claim is made row by row: one more atom for one more name
/// gives one more row, with the type to read and its transform.
pub proof fn atoms_make_rows(
    atoms: Seq<u32>,
    rows: Seq<(Seq<char>, Seq<char>, Transform)>,
    atom: u32,
    row: (Seq<char>, Seq<char>, Transform),
)
    requires
        atoms.len() == rows.len(),
    ensures
        selection::interned(atoms.push(atom), rows.push(row)) == selection::with_target(
            selection::interned(atoms, rows),
            (atom, row.1, row.2),
        ),
        selection::interned(Seq::empty(), Seq::empty()).len() == 0,
{
    assert(atoms.push(atom).take(rows.len() as int) =~= atoms);
    assert(rows.push(row).drop_last() =~= rows);
}

/// How a type is read from an X11 owner: a URI list that the owner lacks is
/// read from its list of copied files with the action line taken away. Every
/// other type has no plan: it is read as it is.
pub proof fn only_missing_uri_lists_have_a_plan(targets: Seq<Seq<char>>, mime: Seq<char>)
    ensures
        selection::plan_at(mime::read_plans(targets), mime) == (if mime == "text/uri-list"@
            && !targets.contains("text/uri-list"@) && targets.contains(
            "x-special/gnome-copied-files"@,
        ) {
            Some(("x-special/gnome-copied-files"@, Transform::StripCopyHeader))
        } else {
            None
        }),
{
    if !targets.contains(mime::URI_LIST@) {
        let plans = mime::read_plans(targets);
        let gnome = |t: Seq<char>| t == mime::GNOME_COPIED_FILES@;
        let found = targets.filter(gnome);
        assert(plans.len() == found.len());
        assert forall|i: int| 0 <= i < plans.len() implies #[trigger] plans[i] == (
            mime::URI_LIST@,
            mime::GNOME_COPIED_FILES@,
            Transform::StripCopyHeader,
        ) by {}
        alike_plans_answer_alike(plans, mime);
        if targets.contains(mime::GNOME_COPIED_FILES@) {
            let i = choose|i: int| 0 <= i < targets.len() && targets[i] == mime::GNOME_COPIED_FILES@;
            targets.lemma_filter_contains(gnome, i);
        } else if found.len() > 0 {
            assert(found.contains(found[0]));
            targets.lemma_filter_contains_rev(gnome, found[0]);
            targets.lemma_filter_pred(gnome, 0);
        }
    }
}

proof fn alike_plans_answer_alike(plans: Seq<(Seq<char>, Seq<char>, Transform)>, mime: Seq<char>)
    requires
        forall|i: int|
            0 <= i < plans.len() ==> #[trigger] plans[i] == (
                mime::URI_LIST@,
                mime::GNOME_COPIED_FILES@,
                Transform::StripCopyHeader,
            ),
    ensures
        selection::plan_at(plans, mime) == (if plans.len() > 0 && mime == mime::URI_LIST@ {
            Some((mime::GNOME_COPIED_FILES@, Transform::StripCopyHeader))
        } else {
            None
        }),
    decreases plans.len(),
{
    if plans.len() > 0 {
        let front = plans.drop_last();
        assert forall|i: int| 0 <= i < front.len() implies #[trigger] front[i] == (
            mime::URI_LIST@,
            mime::GNOME_COPIED_FILES@,
            Transform::StripCopyHeader,
        ) by {
            assert(front[i] == plans[i]);
        }
        alike_plans_answer_alike(front, mime);
        assert(plans.last() == plans[plans.len() - 1]);
    }
}

/// A selection at the start proxies nothing, owns nothing and waits for
/// nothing.
pub proof fn selections_start_empty()
    ensures
        ({
            let sel = SelView::initial();
            &&& sel.broker == BrokerView { state: StateView::Idle, epoch: 0 }
            &&& sel.offer is None && sel.source is None && sel.claim is None
            &&& sel.targets.len() == 0 && sel.plans.len() == 0 && sel.parked.len() == 0
            &&& sel.pending_targets is None && sel.x11_owner is None && sel.fill is None
            &&& sel.snapshot is None && sel.capture is None && sel.owned_since is None
            &&& sel.reclaimed is None && !sel.sensitive && !sel.wayland_owned
            &&& sel.sources == 0 && sel.wl_gen == 0 && sel.x11_gen == 0
        }),
{
}

/// A text paste, down to its bytes: whatever the source holds for the chosen
/// type, `UTF8_STRING` and `TEXT` are served just that, and `STRING` is served
/// one byte for each character of it, `?` where Latin-1 has none.
pub proof fn text_reaches_the_requestor_unchanged(
    sel: SelView,
    env: Env,
    kind: SelKind,
    req: SelectionRequest,
    types: Seq<Seq<char>>,
    mime: Seq<char>,
    source: Seq<u8>,
)
    requires
        sel.owned_since is Some,
        sel.broker.state == StateView::WaylandApp(types),
        mime::preferred_text(types) is Some,
        mime::preferred_text(
            if sel.offer is Some {
                sel.offer->0.types
            } else {
                types
            },
        ) == Some(mime),
        req.target == env.x11.atoms.utf8_string || req.target == env.x11.atoms.text || req.target
            == 31,
        req.target != env.x11.atoms.targets,
        req.target != env.x11.atoms.timestamp,
        req.target != env.x11.atoms.multiple,
        source.len() > 0,
    ensures
        sel.request_verdict(env, req) matches RequestVerdict::Content(paste) && {
            &&& paste.mime == mime
            &&& paste.req == req
            &&& req.target != 31 ==> transfer::served(paste.conversion, paste.transform, source)
                == Ok::<Seq<u8>, Refusal>(source)
            &&& req.target == 31 && vstd::utf8::valid_utf8(source) ==> ({
                let text = vstd::utf8::decode_utf8(source);
                transfer::served(paste.conversion, paste.transform, source) == Ok::<
                    Seq<u8>,
                    Refusal,
                >(
                    Seq::new(
                        text.len(),
                        |i: int|
                            if text[i] as u32 <= 0xff {
                                text[i] as u8
                            } else {
                                '?' as u8
                            },
                    ),
                )
            })
            &&& req.target == 31 && !vstd::utf8::valid_utf8(source) ==> transfer::served(
                paste.conversion,
                paste.transform,
                source,
            ) is Err
        },
{
    text_requests_get_the_text(sel, env, req, types, mime);
    transfer::sources_are_served_faithfully(source);
}

/// A paste of anything else that the Wayland owner has, down to its bytes: the
/// row of a type that is read as it is serves just what the source holds.
pub proof fn other_content_reaches_the_requestor_unchanged(
    sel: SelView,
    env: Env,
    req: SelectionRequest,
    types: Seq<Seq<char>>,
    mime: Seq<char>,
    source: Seq<u8>,
)
    requires
        sel.owned_since is Some,
        sel.broker.state == StateView::WaylandApp(types),
        mime::preferred_text(types) is Some ==> req.target != env.x11.atoms.utf8_string
            && req.target != env.x11.atoms.text && req.target != 31,
        req.target != env.x11.atoms.targets,
        req.target != env.x11.atoms.timestamp,
        req.target != env.x11.atoms.multiple,
        selection::target_at(sel.targets, req.target) == Some((mime, Transform::Identity)),
        source.len() > 0,
    ensures
        sel.request_verdict(env, req) matches RequestVerdict::Content(paste) && paste.mime == mime
            && paste.reply_type == req.target && transfer::served(
            paste.conversion,
            paste.transform,
            source,
        ) == Ok::<Seq<u8>, Refusal>(source),
{
    row_requests_get_the_row(sel, env, req);
    transfer::sources_are_served_faithfully(source);
}

/// A Wayland paste from an X11 owner, down to its bytes: a type that is neither
/// plain text nor a URI list that the owner lacks is read from the owner's
/// target of that name alone, and delivered as it was read.
pub proof fn other_content_reaches_the_wayland_client_unchanged(
    sel: SelView,
    env: Env,
    kind: SelKind,
    source: nat,
    list: Seq<Seq<char>>,
    mime: Seq<char>,
    bytes: Seq<u8>,
)
    requires
        sel.source == Some(source),
        sel.plans == mime::read_plans(list),
        sel.snapshot is Some ==> !sel.snapshot->0.data.contains_key(mime),
        !mime::plain_text(mime),
        mime != "text/uri-list"@ || list.contains("text/uri-list"@),
    ensures
        sel.send_plan(env, kind, source, mime) matches SendView::Read(read) && {
            let ways = transfer::ways_to_read(read.mime, read.plan);
            &&& read.kind == kind
            &&& read.timeout == env.transfer_timeout
            &&& ways.len() == 1
            &&& ways[0].target == TargetView::Named(mime)
            &&& transfer::delivered(ways[0].transform, ways[0].from_latin1, bytes) == bytes
        },
{
    only_missing_uri_lists_have_a_plan(list, mime);
    transfer::other_types_are_read_byte_for_byte(mime, bytes);
}

/// A URI list that the X11 owner lacks is read from its list of copied files,
/// and the action line in front of that list does not reach the client.
pub proof fn missing_uri_lists_are_read_from_copied_files(
    sel: SelView,
    env: Env,
    kind: SelKind,
    source: nat,
    list: Seq<Seq<char>>,
    uris: Seq<u8>,
)
    requires
        sel.source == Some(source),
        sel.plans == mime::read_plans(list),
        sel.snapshot is None,
        !list.contains("text/uri-list"@),
        list.contains("x-special/gnome-copied-files"@),
    ensures
        sel.send_plan(env, kind, source, "text/uri-list"@) matches SendView::Read(read) && {
            let ways = transfer::ways_to_read(read.mime, read.plan);
            &&& ways.len() == 1
            &&& ways[0].target == TargetView::Named("x-special/gnome-copied-files"@)
            &&& transfer::delivered(
                ways[0].transform,
                ways[0].from_latin1,
                seq!['c' as u8, 'o' as u8, 'p' as u8, 'y' as u8, 10u8] + uris,
            ) == uris
        },
{
    only_missing_uri_lists_have_a_plan(list, "text/uri-list"@);
    mime::transforms_edit_one_line(uris);
}

/// Two copies in a row on the Wayland side: whatever the first one left behind,
/// it is the second one that the X11 side is claimed for.
pub proof fn the_latest_wayland_copy_counts(
    sel: SelView,
    env: Env,
    kind: SelKind,
    first: OfferView,
    second: OfferView,
    recent: bool,
)
    requires
        env.running,
        !env.aggressive_claims,
        is_genuine_copy(sel, env, first, recent),
        is_genuine_copy(sel, env, second, recent),
    ensures
        ({
            let one = sel.after_wayland_selection(env, kind, Some(first), recent).sel;
            let filled = one.after_gap(env, kind).sel;
            let before_the_gap = one.after_wayland_selection(
                env,
                kind,
                Some(second),
                recent,
            ).sel.after_gap(env, kind);
            let after_the_gap = filled.after_wayland_selection(
                env,
                kind,
                Some(second),
                recent,
            ).sel.after_gap(env, kind);
            &&& before_the_gap.sel.broker.state == StateView::WaylandApp(second.types)
            &&& before_the_gap.sel.broker.epoch == sel.broker.epoch + 1
            &&& before_the_gap.sel.offer == Some(second)
            &&& after_the_gap.sel.broker.state == StateView::WaylandApp(second.types)
            &&& after_the_gap.sel.broker.epoch == sel.broker.epoch + 2
            &&& after_the_gap.sel.offer == Some(second)
        }),
{
    every_wayland_copy_waits_its_turn(sel, env, kind, first, recent);
    every_wayland_copy_is_claimed_for_after_the_gap(sel, env, kind, first, recent);
    let one = sel.after_wayland_selection(env, kind, Some(first), recent).sel;
    let filled = one.after_gap(env, kind).sel;
    assert(is_genuine_copy(one, env, second, recent));
    assert(is_genuine_copy(filled, env, second, recent));
    every_wayland_copy_is_claimed_for_after_the_gap(one, env, kind, second, recent);
    every_wayland_copy_is_claimed_for_after_the_gap(filled, env, kind, second, recent);
}

/// All counters can be advanced exactly while none has reached its end.
pub proof fn counters_run_to_their_end(sel: SelView)
    ensures
        sel.has_room() <==> sel.broker.epoch < u64::MAX && sel.wl_gen < u64::MAX && sel.x11_gen
            < u64::MAX && sel.sources < u64::MAX,
{
}

/// Where a paste gets its bytes is said as it is.
pub proof fn plans_say_what_they_hold(snapshot: Arc<Snapshot>, read: X2wRequest)
    ensures
        SendPlan::Superseded@ is Superseded,
        SendPlan::Snapshot(snapshot)@ == SendView::Snapshot(snapshot@),
        SendPlan::Read(read)@ == SendView::Read(read@),
{
}

/// The bridge's own claim is recognised as it is stated, by its own types and
/// its own moment.
pub proof fn echoes_are_recognised(claim: OwnX11Claim, types: &[String], recent: bool, r: bool)
    requires
        call_ensures(OwnX11Claim::is_echo_at, (&claim, types, recent), r),
    ensures
        r == selection::is_echo_of(text::texts(claim.mime_types@), text::texts(types@), recent),
        claim@.at == claim.at,
        claim@.types == text::texts(claim.mime_types@),
{
}

} // verus!
