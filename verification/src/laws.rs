//! What holds of the bridge as a whole.

use std::time::Instant;

use vstd::prelude::*;

use crate::action::{ActionView, Env, PasteView, ReadView, ReplyView};
use crate::app::{AppView, PendingView, X11Event};
use crate::broker::{BrokerView, CommandView, EventView, StateView};
use crate::mime;
use crate::mime::Transform;
use crate::payload::SnapshotView;
use crate::selection;
use crate::selection::{ParkedView, RequestVerdict, SelView, Turn};
use crate::transfer;
use crate::transfer::Conv;
use crate::wayland::OfferView;
use crate::x11;
use crate::x11::SelectionRequest;
use crate::SelKind;

verus! {

/// Everything that can happen to one selection.
pub enum Happening {
    WaylandSelection(Option<OfferView>, bool),
    SourceCancelled(nat),
    GapElapsed,
    X11Owner(u32, bool),
    X11Primary(bool),
    Lost,
    TargetsReply(u32),
    TargetsRead(nat, Option<Seq<Seq<char>>>),
    Request(SelectionRequest),
    Interned(nat, Seq<u32>),
    CaptureStarted(nat),
    Claimed(u32, u32, Instant),
    Reclaimed(u32, u32),
    Snapshot(SnapshotView),
    Startup(u32),
}

/// The selection after whatever happened to it.
pub open spec fn after(sel: SelView, env: Env, kind: SelKind, what: Happening) -> Turn {
    match what {
        Happening::WaylandSelection(offer, recent) => sel.after_wayland_selection(
            env,
            kind,
            offer,
            recent,
        ),
        Happening::SourceCancelled(source) => sel.after_source_cancelled(kind, source),
        Happening::GapElapsed => sel.after_gap(env, kind),
        Happening::X11Owner(owner, has_owner) => sel.after_x11_owner(env, kind, owner, has_owner),
        Happening::X11Primary(has_owner) => sel.after_x11_primary(env, kind, has_owner),
        Happening::Lost => sel.after_lost(env, kind),
        Happening::TargetsReply(property) => sel.after_targets_reply(env, kind, property),
        Happening::TargetsRead(epoch, names) => sel.after_targets_read(env, kind, epoch, names),
        Happening::Request(req) => sel.after_request(env, kind, req),
        Happening::Interned(epoch, atoms) => sel.after_interned(env, kind, epoch, atoms),
        Happening::CaptureStarted(epoch) => sel.after_capture_started(epoch).quiet(),
        Happening::Claimed(owner, time, at) => sel.after_claimed(env, owner, time, at).quiet(),
        Happening::Reclaimed(owner, time) => sel.after_reclaimed(env, owner, time).quiet(),
        Happening::Snapshot(snapshot) => sel.after_snapshot(env, kind, snapshot),
        Happening::Startup(owner) => sel.after_startup(env, kind, owner),
    }
}

/// No counter went back.
pub open spec fn counts_forward(before: SelView, next: SelView) -> bool {
    &&& before.broker.epoch <= next.broker.epoch
    &&& before.wl_gen <= next.wl_gen
    &&& before.x11_gen <= next.x11_gen
    &&& before.sources <= next.sources
}

/// What a broker event leaves of a valid selection.
proof fn dispatch_keeps_validity(sel: SelView, env: Env, kind: SelKind, event: EventView)
    requires
        sel.valid(),
    ensures
        sel.dispatched(env, kind, event).sel.valid(),
        sel.dispatched(env, kind, event).sel.broker == sel.broker.after(event),
        sel.dispatched(env, kind, event).sel.wl_gen == sel.wl_gen,
        sel.dispatched(env, kind, event).sel.x11_gen == sel.x11_gen,
        counts_forward(sel, sel.dispatched(env, kind, event).sel),
        sel.dispatched(env, kind, event).sel.fill == sel.fill,
{
    reveal(SelView::dispatched);
}

/// A selection is valid at the start, and stays so whatever happens. No counter
/// ever goes back.
#[verifier::rlimit(50)]
pub proof fn validity_is_kept(sel: SelView, env: Env, kind: SelKind, what: Happening)
    requires
        sel.valid(),
    ensures
        SelView::initial().valid(),
        after(sel, env, kind, what).sel.valid(),
        counts_forward(sel, after(sel, env, kind, what).sel),
{
    match what {
        Happening::WaylandSelection(offer, recent) => {
            wayland_selection_keeps_validity(sel, env, kind, offer, recent);
        },
        Happening::GapElapsed => {
            gap_keeps_validity(sel, env, kind);
        },
        Happening::X11Owner(owner, has_owner) => {
            let counted = SelView { x11_gen: sel.x11_gen + 1, ..sel };
            dispatch_keeps_validity(
                SelView { x11_owner: Some(owner), ..counted },
                env,
                kind,
                EventView::X11Selection,
            );
            dispatch_keeps_validity(
                SelView { x11_owner: None, ..counted },
                env,
                kind,
                EventView::X11Cleared,
            );
        },
        Happening::X11Primary(has_owner) => {
            dispatch_keeps_validity(sel, env, kind, EventView::X11Selection);
            dispatch_keeps_validity(sel, env, kind, EventView::X11Cleared);
        },
        Happening::Lost => {
            dispatch_keeps_validity(
                SelView { owned_since: None, claim: None, ..sel },
                env,
                kind,
                EventView::X11Lost,
            );
        },
        Happening::TargetsReply(property) => {
            if let Some(epoch) = sel.pending_targets {
                dispatch_keeps_validity(
                    SelView { pending_targets: None, ..sel },
                    env,
                    kind,
                    EventView::X11Targets(epoch, seq![]),
                );
            }
        },
        Happening::TargetsRead(epoch, names) => {
            dispatch_keeps_validity(sel, env, kind, EventView::X11Targets(epoch, seq![]));
            if let Some(list) = names {
                let marked = SelView {
                    sensitive: list.contains(mime::KDE_PASSWORD_HINT@),
                    ..sel
                };
                dispatch_keeps_validity(marked, env, kind, EventView::X11Targets(epoch, seq![]));
                dispatch_keeps_validity(
                    SelView { plans: mime::read_plans(list), ..marked },
                    env,
                    kind,
                    EventView::X11Targets(epoch, mime::advertised(list)),
                );
            }
        },
        Happening::Startup(owner) => {
            gap_keeps_validity(sel, env, kind);
            dispatch_keeps_validity(
                SelView { x11_owner: Some(owner), ..sel },
                env,
                kind,
                EventView::X11Selection,
            );
        },
        _ => {},
    }
}

proof fn gap_keeps_validity(sel: SelView, env: Env, kind: SelKind)
    requires
        sel.valid(),
    ensures
        sel.after_gap(env, kind).sel.valid(),
        counts_forward(sel, sel.after_gap(env, kind).sel),
{
    if let Some(f) = sel.fill {
        let unset = SelView { fill: None, ..sel };
        dispatch_keeps_validity(
            SelView { x11_owner: None, ..unset },
            env,
            kind,
            EventView::WaylandSelection(f.types),
        );
        dispatch_keeps_validity(
            SelView { x11_owner: f.owner, ..unset },
            env,
            kind,
            EventView::X11Selection,
        );
    }
}

proof fn wayland_selection_keeps_validity(
    sel: SelView,
    env: Env,
    kind: SelKind,
    offer: Option<OfferView>,
    recent: bool,
)
    requires
        sel.valid(),
    ensures
        sel.after_wayland_selection(env, kind, offer, recent).sel.valid(),
        counts_forward(sel, sel.after_wayland_selection(env, kind, offer, recent).sel),
{
    let changed = sel.wayland_changed(offer is Some).sel;
    if let Some(o) = offer {
        dispatch_keeps_validity(
            SelView { sensitive: true, ..changed },
            env,
            kind,
            EventView::WaylandCleared,
        );
        dispatch_keeps_validity(changed.offered(o), env, kind, EventView::WaylandCleared);
        dispatch_keeps_validity(
            SelView { x11_owner: None, ..changed.offered(o) },
            env,
            kind,
            EventView::WaylandSelection(mime::content(o.types)),
        );
    } else {
        dispatch_keeps_validity(
            SelView { sensitive: false, ..changed },
            env,
            kind,
            EventView::WaylandCleared,
        );
    }
}

/// A step towards taking a selection: on the X11 side it starts with interning
/// the targets, on the Wayland side with fetching them.
pub open spec fn is_claim(act: ActionView) -> bool {
    ||| act is InternTargets
    ||| act is ClaimX11
    ||| act is ReclaimX11
    ||| act is FetchTargets
    ||| act is ClaimWayland
}

/// No selection is taken.
pub open spec fn claims_nothing(acts: Seq<ActionView>) -> bool {
    forall|i: int| 0 <= i < acts.len() ==> !is_claim(#[trigger] acts[i])
}

/// At most one selection is taken.
pub open spec fn claims_once(acts: Seq<ActionView>) -> bool {
    forall|i: int, j: int|
        0 <= i < j < acts.len() ==> !(is_claim(#[trigger] acts[i]) && is_claim(
            #[trigger] acts[j],
        ))
}

/// The end of an owner takes no selection, and neither do targets that are
/// empty or late.
proof fn clearing_claims_nothing(sel: SelView, env: Env, kind: SelKind, event: EventView)
    requires
        match event {
            EventView::WaylandCleared | EventView::X11Cleared | EventView::X11Lost => true,
            EventView::X11Targets(epoch, types) => types.len() == 0 || epoch != sel.broker.epoch,
            _ => false,
        },
    ensures
        claims_nothing(sel.dispatched(env, kind, event).acts),
{
    reveal(SelView::dispatched);
}

/// One broker event takes one selection at most.
proof fn dispatch_claims_once(sel: SelView, env: Env, kind: SelKind, event: EventView)
    ensures
        claims_once(sel.dispatched(env, kind, event).acts),
{
    reveal(SelView::dispatched);
}

/// An offer that is the bridge's own X11 claim coming back is observed, and
/// nothing changes: the live offer, which the mirror itself reads through,
/// stays.
pub proof fn own_claim_coming_back_is_only_observed(
    sel: SelView,
    env: Env,
    kind: SelKind,
    offer: OfferView,
    recent: bool,
)
    requires
        sel.claim matches Some(own) && selection::is_echo_of(own.types, offer.types, recent),
    ensures
        sel.after_wayland_selection(env, kind, Some(offer), recent) == (Turn {
            sel,
            acts: seq![ActionView::DestroyOffer(offer.id)],
        }),
{
}

/// Another bridge's mirror of the X11 side is never bridged back: no selection
/// is taken, now or later on its account.
pub proof fn mirrors_are_never_bridged(
    sel: SelView,
    env: Env,
    kind: SelKind,
    offer: OfferView,
    recent: bool,
)
    requires
        mime::is_mirror(offer.types),
    ensures
        ({
            let turn = sel.after_wayland_selection(env, kind, Some(offer), recent);
            &&& claims_nothing(turn.acts)
            &&& turn.sel.broker == sel.broker
            &&& turn.sel.fill == sel.fill
            &&& turn.sel.claim == sel.claim
        }),
{
}

/// A claim by another bridge's window is never proxied.
pub proof fn bridge_claims_are_never_proxied(sel: SelView, env: Env, kind: SelKind, owner: u32)
    requires
        env.wm_window == Some(owner),
    ensures
        ({
            let turn = sel.after_x11_owner(env, kind, owner, true);
            &&& turn.sel.broker == sel.broker
            &&& turn.sel.fill == sel.fill
            &&& turn.acts.len() == 0 || turn.acts == seq![ActionView::ReclaimX11(kind)]
        }),
{
}

/// By default a copy, on either side, takes no selection by itself: the other
/// side gets its chance to update first.
pub proof fn copies_wait_for_the_other_side(sel: SelView, env: Env, kind: SelKind, what: Happening)
    requires
        !env.aggressive_claims,
        env.running,
        what is WaylandSelection || what is X11Owner,
    ensures
        claims_nothing(after(sel, env, kind, what).acts),
{
    match what {
        Happening::WaylandSelection(offer, recent) => {
            let changed = sel.wayland_changed(offer is Some).sel;
            if let Some(o) = offer {
                clearing_claims_nothing(
                    SelView { sensitive: true, ..changed },
                    env,
                    kind,
                    EventView::WaylandCleared,
                );
                clearing_claims_nothing(changed.offered(o), env, kind, EventView::WaylandCleared);
            } else {
                clearing_claims_nothing(
                    SelView { sensitive: false, ..changed },
                    env,
                    kind,
                    EventView::WaylandCleared,
                );
            }
        },
        Happening::X11Owner(owner, has_owner) => {
            clearing_claims_nothing(
                SelView { x11_owner: None, x11_gen: sel.x11_gen + 1, ..sel },
                env,
                kind,
                EventView::X11Cleared,
            );
        },
        _ => {},
    }
}

/// Told to be aggressive, the bridge claims the other side of a copy at once:
/// the X11 side for a Wayland offer, the Wayland side for an X11 owner.
#[verifier::rlimit(50)]
pub proof fn aggressive_copies_claim_at_once(
    sel: SelView,
    env: Env,
    kind: SelKind,
    offer: OfferView,
    recent: bool,
    owner: u32,
)
    requires
        env.aggressive_claims,
        env.running,
        !mime::is_mirror(offer.types),
        mime::content(offer.types).len() > 0,
        !(env.skip_sensitive && offer.types.contains(mime::KDE_PASSWORD_HINT@)),
        !(sel.wayland_verdict(env, Some(offer), recent) is Echo),
        env.wm_window != Some(owner),
    ensures
        ({
            let copied = sel.after_wayland_selection(env, kind, Some(offer), recent);
            &&& copied.acts.len() > 0
            &&& copied.acts.last() == ActionView::InternTargets(
                kind,
                sel.broker.epoch + 1,
                selection::row_names(selection::proxy_rows(mime::content(offer.types))),
            )
            &&& copied.sel.broker.state == StateView::WaylandApp(mime::content(offer.types))
        }),
        ({
            let owned = sel.after_x11_owner(env, kind, owner, true);
            &&& owned.acts.len() > 0
            &&& owned.acts.last() == ActionView::FetchTargets(kind)
            &&& owned.sel.x11_owner == Some(owner)
        }),
{
    reveal(SelView::dispatched);
}

/// A gap is filled only where neither side changed since the copy.
pub proof fn only_voids_are_filled(sel: SelView, env: Env, kind: SelKind)
    requires
        !claims_nothing(sel.after_gap(env, kind).acts),
    ensures
        sel.fill matches Some(f) && f.wl_gen == sel.wl_gen && f.x11_gen == sel.x11_gen,
{
}

/// A copy waits to be filled in on the X11 side, and the X11 side updates by
/// itself: nothing is claimed, neither then nor when the window has passed.
pub proof fn x11_update_calls_off_the_fill(
    sel: SelView,
    env: Env,
    kind: SelKind,
    owner: u32,
    has_owner: bool,
)
    requires
        sel.valid(),
        !env.aggressive_claims,
        env.running,
        sel.waits_to_fill(true),
    ensures
        ({
            let updated = sel.after_x11_owner(env, kind, owner, has_owner);
            &&& claims_nothing(updated.acts)
            &&& claims_nothing(updated.sel.after_gap(env, kind).acts)
            &&& has_owner ==> updated.sel.after_gap(env, kind).sel.broker == sel.broker
        }),
{
    copies_wait_for_the_other_side(sel, env, kind, Happening::X11Owner(owner, has_owner));
    let cleared = SelView { x11_owner: None, x11_gen: sel.x11_gen + 1, ..sel };
    dispatch_keeps_validity(cleared, env, kind, EventView::X11Cleared);
}

/// A copy waits to be filled in on the Wayland side, and the Wayland side
/// updates by itself: nothing is claimed, neither then nor when the window has
/// passed.
pub proof fn wayland_update_calls_off_the_fill(
    sel: SelView,
    env: Env,
    kind: SelKind,
    offer: Option<OfferView>,
    recent: bool,
)
    requires
        sel.valid(),
        !env.aggressive_claims,
        env.running,
        sel.waits_to_fill(false),
        !(sel.wayland_verdict(env, offer, recent) is Echo),
    ensures
        ({
            let updated = sel.after_wayland_selection(env, kind, offer, recent);
            &&& claims_nothing(updated.acts)
            &&& claims_nothing(updated.sel.after_gap(env, kind).acts)
        }),
{
    copies_wait_for_the_other_side(sel, env, kind, Happening::WaylandSelection(offer, recent));
    let changed = sel.wayland_changed(offer is Some).sel;
    dispatch_keeps_validity(
        SelView { sensitive: true, ..changed },
        env,
        kind,
        EventView::WaylandCleared,
    );
    dispatch_keeps_validity(
        SelView { sensitive: false, ..changed },
        env,
        kind,
        EventView::WaylandCleared,
    );
    if let Some(o) = offer {
        dispatch_keeps_validity(changed.offered(o), env, kind, EventView::WaylandCleared);
    }
}

/// The answer of another bridge is consumed: an X11 owner that appears while a
/// Wayland copy waits to be filled in there is not proxied back.
pub proof fn answers_are_not_bridged_back(sel: SelView, env: Env, kind: SelKind, owner: u32)
    requires
        !env.aggressive_claims,
        sel.waits_to_fill(true),
    ensures
        ({
            let turn = sel.after_x11_owner(env, kind, owner, true);
            &&& turn.acts.len() == 0
            &&& turn.sel.broker == sel.broker
            &&& env.wm_window != Some(owner) ==> turn.sel.fill is None
        }),
{
}

/// A gap is filled once: when the window has passed, passing again does
/// nothing.
pub proof fn gaps_are_filled_once(sel: SelView, env: Env, kind: SelKind)
    requires
        sel.valid(),
    ensures
        sel.after_gap(env, kind).sel.after_gap(env, kind) == sel.after_gap(env, kind).sel.quiet(),
{
    if let Some(f) = sel.fill {
        let unset = SelView { fill: None, ..sel };
        gap_keeps_validity(sel, env, kind);
        dispatch_keeps_validity(
            SelView { x11_owner: None, ..unset },
            env,
            kind,
            EventView::WaylandSelection(f.types),
        );
        dispatch_keeps_validity(
            SelView { x11_owner: f.owner, ..unset },
            env,
            kind,
            EventView::X11Selection,
        );
    }
}

/// Nothing that happens takes a selection more than once.
#[verifier::rlimit(50)]
pub proof fn one_claim_at_a_time(sel: SelView, env: Env, kind: SelKind, what: Happening)
    ensures
        claims_once(after(sel, env, kind, what).acts),
{
    match what {
        Happening::WaylandSelection(offer, recent) => {
            let changed = sel.wayland_changed(offer is Some).sel;
            if let Some(o) = offer {
                dispatch_claims_once(
                    SelView { sensitive: true, ..changed },
                    env,
                    kind,
                    EventView::WaylandCleared,
                );
                dispatch_claims_once(changed.offered(o), env, kind, EventView::WaylandCleared);
                dispatch_claims_once(
                    SelView { x11_owner: None, ..changed.offered(o) },
                    env,
                    kind,
                    EventView::WaylandSelection(mime::content(o.types)),
                );
            } else {
                dispatch_claims_once(
                    SelView { sensitive: false, ..changed },
                    env,
                    kind,
                    EventView::WaylandCleared,
                );
            }
        },
        Happening::GapElapsed => {
            gap_claims_once(sel, env, kind);
        },
        Happening::X11Owner(owner, has_owner) => {
            let counted = SelView { x11_gen: sel.x11_gen + 1, ..sel };
            dispatch_claims_once(
                SelView { x11_owner: Some(owner), ..counted },
                env,
                kind,
                EventView::X11Selection,
            );
            dispatch_claims_once(
                SelView { x11_owner: None, ..counted },
                env,
                kind,
                EventView::X11Cleared,
            );
        },
        Happening::X11Primary(has_owner) => {
            dispatch_claims_once(sel, env, kind, EventView::X11Selection);
            dispatch_claims_once(sel, env, kind, EventView::X11Cleared);
        },
        Happening::Lost => {
            dispatch_claims_once(
                SelView { owned_since: None, claim: None, ..sel },
                env,
                kind,
                EventView::X11Lost,
            );
        },
        Happening::TargetsReply(property) => {
            if let Some(epoch) = sel.pending_targets {
                dispatch_claims_once(
                    SelView { pending_targets: None, ..sel },
                    env,
                    kind,
                    EventView::X11Targets(epoch, seq![]),
                );
            }
        },
        Happening::TargetsRead(epoch, names) => {
            dispatch_claims_once(sel, env, kind, EventView::X11Targets(epoch, seq![]));
            if let Some(list) = names {
                let marked = SelView {
                    sensitive: list.contains(mime::KDE_PASSWORD_HINT@),
                    ..sel
                };
                dispatch_claims_once(marked, env, kind, EventView::X11Targets(epoch, seq![]));
                dispatch_claims_once(
                    SelView { plans: mime::read_plans(list), ..marked },
                    env,
                    kind,
                    EventView::X11Targets(epoch, mime::advertised(list)),
                );
            }
        },
        Happening::Snapshot(snapshot) => {
            let landed = SelView {
                snapshot: if snapshot.epoch == sel.broker.epoch {
                    Some(snapshot)
                } else {
                    sel.snapshot
                },
                capture: None,
                parked: seq![],
                ..sel
            };
            replay_claims_nothing(landed, env, kind, sel.parked);
        },
        Happening::Startup(owner) => {
            gap_claims_once(sel, env, kind);
            dispatch_claims_once(
                SelView { x11_owner: Some(owner), ..sel },
                env,
                kind,
                EventView::X11Selection,
            );
        },
        _ => {},
    }
}

proof fn gap_claims_once(sel: SelView, env: Env, kind: SelKind)
    ensures
        claims_once(sel.after_gap(env, kind).acts),
{
    if let Some(f) = sel.fill {
        let unset = SelView { fill: None, ..sel };
        dispatch_claims_once(
            SelView { x11_owner: None, ..unset },
            env,
            kind,
            EventView::WaylandSelection(f.types),
        );
        dispatch_claims_once(
            SelView { x11_owner: f.owner, ..unset },
            env,
            kind,
            EventView::X11Selection,
        );
    }
}

proof fn replay_claims_nothing(sel: SelView, env: Env, kind: SelKind, parked: Seq<ParkedView>)
    ensures
        claims_nothing(sel.replayed(env, kind, parked)),
    decreases parked.len(),
{
    if parked.len() > 0 {
        replay_claims_nothing(sel, env, kind, parked.drop_last());
    }
}

/// With secrets skipped, a Wayland secret is not bridged: nothing is claimed,
/// nothing is left to be filled in on its account, and the bridge proxies
/// nothing any more.
pub proof fn wayland_secrets_are_skipped(
    sel: SelView,
    env: Env,
    kind: SelKind,
    offer: OfferView,
    recent: bool,
)
    requires
        env.skip_sensitive,
        offer.types.contains(mime::KDE_PASSWORD_HINT@),
        !(sel.wayland_verdict(env, Some(offer), recent) is Echo),
    ensures
        ({
            let turn = sel.after_wayland_selection(env, kind, Some(offer), recent);
            &&& claims_nothing(turn.acts)
            &&& turn.sel.offer is None
            &&& turn.sel.fill == sel.fill
            &&& mime::is_mirror(offer.types) || turn.sel.broker.state is Idle
        }),
{
    let changed = sel.wayland_changed(true).sel;
    let marked = SelView { sensitive: true, ..changed };
    clearing_claims_nothing(marked, env, kind, EventView::WaylandCleared);
    reveal(SelView::dispatched);
}

/// With secrets skipped, an X11 secret is not bridged.
pub proof fn x11_secrets_are_skipped(
    sel: SelView,
    env: Env,
    kind: SelKind,
    epoch: nat,
    names: Seq<Seq<char>>,
)
    requires
        env.skip_sensitive,
        names.contains(mime::KDE_PASSWORD_HINT@),
    ensures
        claims_nothing(sel.after_targets_read(env, kind, epoch, Some(names)).acts),
{
    clearing_claims_nothing(
        SelView { sensitive: true, ..sel },
        env,
        kind,
        EventView::X11Targets(epoch, seq![]),
    );
}

/// An answer to a selection request, or the start of one.
pub open spec fn is_answer(act: ActionView) -> bool {
    ||| act is Notify
    ||| act is ReplyAtoms
    ||| act is ServeSnapshot
    ||| act is ReadOffer
}

/// How many requests are answered.
pub open spec fn answered(acts: Seq<ActionView>) -> nat
    decreases acts.len(),
{
    if acts.len() == 0 {
        0
    } else {
        answered(acts.drop_last()) + if is_answer(acts.last()) {
            1nat
        } else {
            0nat
        }
    }
}

proof fn answered_adds(a: Seq<ActionView>, b: Seq<ActionView>)
    ensures
        answered(a + b) == answered(a) + answered(b),
    decreases b.len(),
{
    if b.len() == 0 {
        assert(a + b =~= a);
    } else {
        assert((a + b).drop_last() =~= a + b.drop_last());
        answered_adds(a, b.drop_last());
    }
}

proof fn answered_none(acts: Seq<ActionView>)
    requires
        forall|i: int| 0 <= i < acts.len() ==> !is_answer(#[trigger] acts[i]),
    ensures
        answered(acts) == 0,
    decreases acts.len(),
{
    if acts.len() > 0 {
        assert forall|i: int| 0 <= i < acts.drop_last().len() implies !is_answer(
            #[trigger] acts.drop_last()[i],
        ) by {
            assert(acts.drop_last()[i] == acts[i]);
        }
        answered_none(acts.drop_last());
    }
}

proof fn refusals_answer_all(parked: Seq<ParkedView>)
    ensures
        answered(selection::refusals(parked)) == parked.len(),
    decreases parked.len(),
{
    if parked.len() > 0 {
        assert(selection::refusals(parked).drop_last() =~= selection::refusals(
            parked.drop_last(),
        ));
        refusals_answer_all(parked.drop_last());
    }
}

/// A broker event answers what is parked or leaves it parked.
proof fn dispatch_answers(sel: SelView, env: Env, kind: SelKind, event: EventView)
    ensures
        ({
            let turn = sel.dispatched(env, kind, event);
            answered(turn.acts) + turn.sel.parked.len() == sel.parked.len()
        }),
{
    reveal(SelView::dispatched);
    let moved = sel.moved(sel.broker.after(event));
    let asked = sel.broker.asks(event);
    refusals_answer_all(sel.parked);
    answered_none(seq![]);
    if asked.len() > 0 {
        let ran = moved.sel.run(env, kind, asked[0]);
        answered_adds(moved.acts, ran.acts);
        refusals_answer_all(moved.sel.parked);
        match asked[0] {
            CommandView::ReleaseX11 => {
                let released = match moved.sel.owned_since {
                    Some(time) => seq![ActionView::ReleaseX11(kind, time)],
                    None => seq![],
                };
                answered_adds(selection::refusals(moved.sel.parked), released);
                answered_none(released);
            },
            _ => {
                answered_none(ran.acts);
            },
        }
    }
}

/// A paste is answered once, or parked.
proof fn paste_answers(sel: SelView, env: Env, kind: SelKind, paste: PasteView)
    ensures
        ({
            let turn = sel.after_paste(env, kind, paste);
            answered(turn.acts) + turn.sel.parked.len() == sel.parked.len() + 1
        }),
{
    let turn = sel.after_paste(env, kind, paste);
    assert(turn.acts.len() > 0 ==> turn.acts.drop_last() =~= seq![]);
    answered_none(seq![]);
}

proof fn replay_answers_all(sel: SelView, env: Env, kind: SelKind, parked: Seq<ParkedView>)
    requires
        sel.capture is None,
    ensures
        answered(sel.replayed(env, kind, parked)) == parked.len(),
    decreases parked.len(),
{
    if parked.len() > 0 {
        let last = parked.last();
        let front = sel.replayed(env, kind, parked.drop_last());
        replay_answers_all(sel, env, kind, parked.drop_last());
        answered_none(seq![]);
        let refusal = seq![ActionView::Notify(transfer::answer(last.paste.req, None))];
        assert(refusal.drop_last() =~= seq![]);
        paste_answers(sel, env, kind, last.paste);
        answered_adds(front, refusal);
        answered_adds(front, sel.after_paste(env, kind, last.paste).acts);
    }
}

/// No request is left without an answer, and none gets two: whatever happens,
/// each request that came in was answered or is parked, and what was parked
/// is answered when it stops being so.
#[verifier::rlimit(50)]
pub proof fn every_request_is_answered_once(
    sel: SelView,
    env: Env,
    kind: SelKind,
    what: Happening,
)
    ensures
        ({
            let turn = after(sel, env, kind, what);
            answered(turn.acts) + turn.sel.parked.len() == sel.parked.len() + if what is Request {
                1nat
            } else {
                0nat
            }
        }),
{
    let turn = after(sel, env, kind, what);
    answered_none(seq![]);
    match what {
        Happening::WaylandSelection(offer, recent) => {
            wayland_selection_answers(sel, env, kind, offer, recent);
        },
        Happening::SourceCancelled(source) => {
            answered_none(turn.acts);
        },
        Happening::GapElapsed => {
            gap_answers(sel, env, kind);
        },
        Happening::X11Owner(owner, has_owner) => {
            let counted = SelView { x11_gen: sel.x11_gen + 1, ..sel };
            match sel.x11_verdict(env, owner, has_owner) {
                selection::X11Verdict::Proxy => {
                    dispatch_answers(
                        SelView { x11_owner: Some(owner), ..counted },
                        env,
                        kind,
                        EventView::X11Selection,
                    );
                },
                selection::X11Verdict::Clear => {
                    dispatch_answers(
                        SelView { x11_owner: None, ..counted },
                        env,
                        kind,
                        EventView::X11Cleared,
                    );
                },
                _ => {
                    answered_none(turn.acts);
                },
            }
        },
        Happening::X11Primary(has_owner) => {
            dispatch_answers(sel, env, kind, EventView::X11Selection);
            dispatch_answers(sel, env, kind, EventView::X11Cleared);
        },
        Happening::Lost => {
            dispatch_answers(
                SelView { owned_since: None, claim: None, ..sel },
                env,
                kind,
                EventView::X11Lost,
            );
        },
        Happening::TargetsReply(property) => {
            if let Some(epoch) = sel.pending_targets {
                if property == x11::NONE {
                    dispatch_answers(
                        SelView { pending_targets: None, ..sel },
                        env,
                        kind,
                        EventView::X11Targets(epoch, seq![]),
                    );
                } else {
                    answered_none(turn.acts);
                }
            }
        },
        Happening::TargetsRead(epoch, names) => {
            dispatch_answers(sel, env, kind, EventView::X11Targets(epoch, seq![]));
            if let Some(list) = names {
                let marked = SelView {
                    sensitive: list.contains(mime::KDE_PASSWORD_HINT@),
                    ..sel
                };
                dispatch_answers(marked, env, kind, EventView::X11Targets(epoch, seq![]));
                dispatch_answers(
                    SelView { plans: mime::read_plans(list), ..marked },
                    env,
                    kind,
                    EventView::X11Targets(epoch, mime::advertised(list)),
                );
            }
        },
        Happening::Request(req) => {
            match sel.request_verdict(env, req) {
                RequestVerdict::Content(paste) => {
                    paste_answers(sel, env, kind, paste);
                },
                _ => {
                    assert(turn.acts.drop_last() =~= seq![]);
                },
            }
        },
        Happening::Interned(epoch, atoms) => {
            answered_none(turn.acts);
        },
        Happening::Snapshot(snapshot) => {
            let current = snapshot.epoch == sel.broker.epoch;
            let locked = if current {
                seq![ActionView::LockSnapshot(snapshot)]
            } else {
                seq![]
            };
            answered_none(locked);
            let landed = SelView {
                snapshot: if current {
                    Some(snapshot)
                } else {
                    sel.snapshot
                },
                capture: None,
                parked: seq![],
                ..sel
            };
            replay_answers_all(landed, env, kind, sel.parked);
            answered_adds(locked, landed.replayed(env, kind, sel.parked));
        },
        Happening::Startup(owner) => {
            gap_answers(sel, env, kind);
            dispatch_answers(
                SelView { x11_owner: Some(owner), ..sel },
                env,
                kind,
                EventView::X11Selection,
            );
        },
        _ => {},
    }
}

proof fn gap_answers(sel: SelView, env: Env, kind: SelKind)
    ensures
        ({
            let turn = sel.after_gap(env, kind);
            answered(turn.acts) + turn.sel.parked.len() == sel.parked.len()
        }),
{
    answered_none(seq![]);
    if let Some(f) = sel.fill {
        let unset = SelView { fill: None, ..sel };
        dispatch_answers(
            SelView { x11_owner: None, ..unset },
            env,
            kind,
            EventView::WaylandSelection(f.types),
        );
        dispatch_answers(
            SelView { x11_owner: f.owner, ..unset },
            env,
            kind,
            EventView::X11Selection,
        );
    }
}

proof fn wayland_selection_answers(
    sel: SelView,
    env: Env,
    kind: SelKind,
    offer: Option<OfferView>,
    recent: bool,
)
    ensures
        ({
            let turn = sel.after_wayland_selection(env, kind, offer, recent);
            answered(turn.acts) + turn.sel.parked.len() == sel.parked.len()
        }),
{
    let turn = sel.after_wayland_selection(env, kind, offer, recent);
    let changed = sel.wayland_changed(offer is Some);
    let now = changed.sel;
    answered_none(changed.acts);
    match sel.wayland_verdict(env, offer, recent) {
        selection::WaylandVerdict::Secret => {
            let marked = SelView { sensitive: true, ..now };
            let head = changed.acts.push(ActionView::DestroyOffer(offer->0.id));
            answered_none(head);
            dispatch_answers(marked, env, kind, EventView::WaylandCleared);
            answered_adds(head, marked.dispatched(env, kind, EventView::WaylandCleared).acts);
        },
        selection::WaylandVerdict::Nothing => {
            let marked = now.offered(offer->0);
            dispatch_answers(marked, env, kind, EventView::WaylandCleared);
            answered_adds(
                changed.acts,
                marked.dispatched(env, kind, EventView::WaylandCleared).acts,
            );
        },
        selection::WaylandVerdict::Claim => {
            let marked = SelView { x11_owner: None, ..now.offered(offer->0) };
            let event = EventView::WaylandSelection(mime::content(offer->0.types));
            dispatch_answers(marked, env, kind, event);
            answered_adds(changed.acts, marked.dispatched(env, kind, event).acts);
        },
        selection::WaylandVerdict::Clear => {
            let marked = SelView { sensitive: false, ..now };
            dispatch_answers(marked, env, kind, EventView::WaylandCleared);
            answered_adds(
                changed.acts,
                marked.dispatched(env, kind, EventView::WaylandCleared).acts,
            );
        },
        _ => {
            answered_none(turn.acts);
        },
    }
}

/// A request is refused where the bridge does not own the selection, where it
/// asks for several targets at once, and where its target was not advertised.
pub proof fn what_is_refused(sel: SelView, env: Env, kind: SelKind, req: SelectionRequest)
    requires
        ({
            let atoms = env.x11.atoms;
            let fixed = req.target == atoms.targets || req.target == atoms.timestamp;
            let text = req.target == atoms.utf8_string || req.target == atoms.text || req.target
                == x11::STRING;
            ||| sel.owned_since is None
            ||| !fixed && req.target == atoms.multiple
            ||| !fixed && !text && selection::target_at(sel.targets, req.target) is None
        }),
    ensures
        sel.after_request(env, kind, req) == (Turn {
            sel,
            acts: seq![ActionView::Notify(transfer::answer(req, None))],
        }),
        transfer::answer(req, None).property == x11::NONE,
{
}

/// While the bridge owns the selection, the list of targets and the time since
/// which it owns it are always there to be asked for.
pub proof fn targets_and_time_are_served(
    sel: SelView,
    env: Env,
    kind: SelKind,
    req: SelectionRequest,
)
    requires
        sel.owned_since is Some,
        req.target == env.x11.atoms.targets || req.target == env.x11.atoms.timestamp,
    ensures
        ({
            let turn = sel.after_request(env, kind, req);
            &&& turn.sel == sel
            &&& turn.acts.len() == 1 && turn.acts[0] is ReplyAtoms
            &&& req.target == env.x11.atoms.targets ==> forall|i: int|
                0 <= i < sel.targets.len() ==> turn.acts[0]->ReplyAtoms_3.contains(
                    (#[trigger] sel.targets[i]).0,
                )
        }),
{
    let turn = sel.after_request(env, kind, req);
    if req.target == env.x11.atoms.targets {
        let atoms = env.x11.atoms;
        let head = seq![atoms.targets, atoms.timestamp] + (if mime::preferred_text(
            sel.proxied(),
        ) is Some {
            seq![atoms.utf8_string, atoms.text, x11::STRING]
        } else {
            seq![]
        });
        let own = sel.targets.map_values(|t: (u32, Seq<char>, Transform)| t.0);
        let values = turn.acts[0]->ReplyAtoms_3;
        assert(values == head + own);
        assert forall|i: int| 0 <= i < sel.targets.len() implies values.contains(
            (#[trigger] sel.targets[i]).0,
        ) by {
            assert((head + own)[head.len() + i] == sel.targets[i].0);
        }
    }
}

/// The bridge takes a selection back only from another bridge, only when it
/// was told to be aggressive, and once per claim: never from a real
/// application.
pub proof fn only_bridges_are_reclaimed_from(
    sel: SelView,
    env: Env,
    kind: SelKind,
    owner: u32,
    has_owner: bool,
)
    requires
        !env.aggressive_claims || env.wm_window != Some(owner) || sel.reclaimed == Some(
            sel.broker.epoch,
        ) || !has_owner,
    ensures
        !sel.after_x11_owner(env, kind, owner, has_owner).acts.contains(
            ActionView::ReclaimX11(kind),
        ),
{
    reveal(SelView::dispatched);
    let turn = sel.after_x11_owner(env, kind, owner, has_owner);
    assert forall|i: int| 0 <= i < turn.acts.len() implies turn.acts[i] != ActionView::ReclaimX11(
        kind,
    ) by {}
}

/// Once taken back, a claim is not taken back again.
pub proof fn claims_are_reclaimed_once(sel: SelView, env: Env, kind: SelKind, owner: u32)
    requires
        sel.x11_verdict(env, owner, true) is Reclaim,
    ensures
        ({
            let turn = sel.after_x11_owner(env, kind, owner, true);
            &&& turn.acts == seq![ActionView::ReclaimX11(kind)]
            &&& turn.sel.after_x11_owner(env, kind, owner, true).acts.len() == 0
        }),
{
}

/// When the bridge starts and both sides are owned, nothing is touched.
pub proof fn start_with_both_owned_touches_nothing(
    sel: SelView,
    env: Env,
    kind: SelKind,
    owner: u32,
)
    requires
        sel.wayland_owned,
        owner != x11::NONE,
        owner != env.x11.win,
    ensures
        ({
            let turn = sel.after_startup(env, kind, owner);
            turn.acts.len() == 0 && turn.sel.broker == sel.broker && (sel.broker.state is Idle
                ==> turn.sel.fill is None)
        }),
{
}

/// Before the event loop runs, an offer takes no selection: it waits until it
/// is known who owns the X11 side.
pub proof fn start_waits_for_the_x11_side(
    sel: SelView,
    env: Env,
    kind: SelKind,
    offer: OfferView,
    recent: bool,
)
    requires
        sel == SelView::initial(),
        !env.running,
        !mime::is_mirror(offer.types),
        mime::content(offer.types).len() > 0,
        !(env.skip_sensitive && offer.types.contains(mime::KDE_PASSWORD_HINT@)),
    ensures
        ({
            let turn = sel.after_wayland_selection(env, kind, Some(offer), recent);
            &&& turn.acts.len() == 0
            &&& turn.sel.wayland_owned
            &&& turn.sel.broker == sel.broker
            &&& turn.sel.waits_to_fill(true)
        }),
{
}

/// When the bridge starts and only the Wayland side is owned, its content is
/// claimed on the X11 side.
pub proof fn start_with_wayland_owned_fills_x11(
    sel: SelView,
    env: Env,
    kind: SelKind,
    offer: OfferView,
    recent: bool,
)
    requires
        sel == SelView::initial(),
        !env.running,
        !mime::is_mirror(offer.types),
        mime::content(offer.types).len() > 0,
        !(env.skip_sensitive && offer.types.contains(mime::KDE_PASSWORD_HINT@)),
    ensures
        ({
            let offered = sel.after_wayland_selection(env, kind, Some(offer), recent).sel;
            let turn = offered.after_startup(env, kind, x11::NONE);
            &&& turn.sel.broker.state == StateView::WaylandApp(mime::content(offer.types))
            &&& turn.acts == seq![
                ActionView::InternTargets(
                    kind,
                    1,
                    selection::row_names(selection::proxy_rows(mime::content(offer.types))),
                ),
            ]
        }),
{
    reveal(SelView::dispatched);
    let offered = sel.after_wayland_selection(env, kind, Some(offer), recent).sel;
    let turn = offered.after_startup(env, kind, x11::NONE);
    assert(turn.acts =~= seq![
        ActionView::InternTargets(
            kind,
            1,
            selection::row_names(selection::proxy_rows(mime::content(offer.types))),
        ),
    ]);
}

/// When the bridge starts and only the X11 side is owned, by a real
/// application, its targets are fetched; with neither side owned nothing
/// happens.
pub proof fn start_with_x11_owned_fills_wayland(env: Env, kind: SelKind, owner: u32)
    requires
        owner != x11::NONE,
        owner != env.x11.win,
        env.wm_window != Some(owner),
    ensures
        ({
            let turn = SelView::initial().after_startup(env, kind, owner);
            &&& turn.acts == seq![ActionView::FetchTargets(kind)]
            &&& turn.sel.x11_owner == Some(owner)
            &&& turn.sel.broker.state is X11App
        }),
        SelView::initial().after_startup(env, kind, x11::NONE) == SelView::initial().quiet(),
{
    reveal(SelView::dispatched);
    let turn = SelView::initial().after_startup(env, kind, owner);
    assert(turn.acts =~= seq![ActionView::FetchTargets(kind)]);
}

/// A Wayland source that goes away while its content is captured, or being
/// captured, ends nothing: the X11 claim and what it rests on stay.
pub proof fn captured_content_survives_its_source(
    sel: SelView,
    env: Env,
    kind: SelKind,
    recent: bool,
)
    requires
        sel.broker.state is WaylandApp,
        sel.capture is Some || sel.snapshot is Some,
    ensures
        ({
            let turn = sel.after_wayland_selection(env, kind, None, recent);
            &&& turn.sel.broker == sel.broker
            &&& turn.sel.snapshot == sel.snapshot
            &&& turn.sel.capture == sel.capture
            &&& turn.sel.parked == sel.parked
            &&& turn.sel.targets == sel.targets
            &&& turn.sel.owned_since == sel.owned_since
            &&& claims_nothing(turn.acts)
            &&& forall|i: int|
                0 <= i < turn.acts.len() ==> !(#[trigger] turn.acts[i] is ReleaseX11)
        }),
{
}

/// In eager mode an X11 owner that goes away after its snapshot was taken ends
/// nothing either.
pub proof fn snapshots_survive_their_owner(sel: SelView, env: Env, kind: SelKind, owner: u32)
    requires
        sel.broker.state is X11App,
        env.sync_mode is Eager,
        sel.snapshot is Some,
    ensures
        ({
            let turn = sel.after_x11_owner(env, kind, owner, false);
            &&& turn.acts.len() == 0
            &&& turn.sel.broker == sel.broker
            &&& turn.sel.snapshot == sel.snapshot
            &&& turn.sel.source == sel.source
        }),
{
}

/// Nothing that happens moves payload bytes, but for an eager fetch, a paste,
/// and the capture that goes with an X11 claim.
pub open spec fn moves_bytes_when_due(acts: Seq<ActionView>, env: Env, what: Happening) -> bool {
    forall|i: int|
        0 <= i < acts.len() ==> match #[trigger] acts[i] {
            ActionView::EagerFetch(_, _, _) => env.sync_mode is Eager,
            ActionView::Capture(_, _, _, _) => what is Interned,
            ActionView::ReadOffer(_, _) => what is Request || what is Snapshot,
            ActionView::ServeSnapshot(_, _) => what is Request || what is Snapshot,
            _ => true,
        }
}

proof fn dispatch_moves_bytes_when_due(
    sel: SelView,
    env: Env,
    kind: SelKind,
    event: EventView,
    what: Happening,
)
    ensures
        moves_bytes_when_due(sel.dispatched(env, kind, event).acts, env, what),
{
    reveal(SelView::dispatched);
}

/// Payload bytes move only when they are due: when somebody pastes, and out of
/// a Wayland source whose content is about to be claimed on the X11 side. An X11
/// owner is read ahead in eager mode alone.
#[verifier::rlimit(50)]
pub proof fn payload_moves_only_when_due(sel: SelView, env: Env, kind: SelKind, what: Happening)
    ensures
        moves_bytes_when_due(after(sel, env, kind, what).acts, env, what),
{
    match what {
        Happening::WaylandSelection(offer, recent) => {
            let changed = sel.wayland_changed(offer is Some).sel;
            if let Some(o) = offer {
                dispatch_moves_bytes_when_due(
                    SelView { sensitive: true, ..changed },
                    env,
                    kind,
                    EventView::WaylandCleared,
                    what,
                );
                dispatch_moves_bytes_when_due(
                    changed.offered(o),
                    env,
                    kind,
                    EventView::WaylandCleared,
                    what,
                );
                dispatch_moves_bytes_when_due(
                    SelView { x11_owner: None, ..changed.offered(o) },
                    env,
                    kind,
                    EventView::WaylandSelection(mime::content(o.types)),
                    what,
                );
            } else {
                dispatch_moves_bytes_when_due(
                    SelView { sensitive: false, ..changed },
                    env,
                    kind,
                    EventView::WaylandCleared,
                    what,
                );
            }
        },
        Happening::GapElapsed => {
            gap_moves_bytes_when_due(sel, env, kind, what);
        },
        Happening::X11Owner(owner, has_owner) => {
            let counted = SelView { x11_gen: sel.x11_gen + 1, ..sel };
            dispatch_moves_bytes_when_due(
                SelView { x11_owner: Some(owner), ..counted },
                env,
                kind,
                EventView::X11Selection,
                what,
            );
            dispatch_moves_bytes_when_due(
                SelView { x11_owner: None, ..counted },
                env,
                kind,
                EventView::X11Cleared,
                what,
            );
        },
        Happening::X11Primary(has_owner) => {
            dispatch_moves_bytes_when_due(sel, env, kind, EventView::X11Selection, what);
            dispatch_moves_bytes_when_due(sel, env, kind, EventView::X11Cleared, what);
        },
        Happening::Lost => {
            dispatch_moves_bytes_when_due(
                SelView { owned_since: None, claim: None, ..sel },
                env,
                kind,
                EventView::X11Lost,
                what,
            );
        },
        Happening::TargetsReply(property) => {
            if let Some(epoch) = sel.pending_targets {
                dispatch_moves_bytes_when_due(
                    SelView { pending_targets: None, ..sel },
                    env,
                    kind,
                    EventView::X11Targets(epoch, seq![]),
                    what,
                );
            }
        },
        Happening::TargetsRead(epoch, names) => {
            let none = EventView::X11Targets(epoch, seq![]);
            dispatch_moves_bytes_when_due(sel, env, kind, none, what);
            if let Some(list) = names {
                let marked = SelView {
                    sensitive: list.contains(mime::KDE_PASSWORD_HINT@),
                    ..sel
                };
                dispatch_moves_bytes_when_due(marked, env, kind, none, what);
                dispatch_moves_bytes_when_due(
                    SelView { plans: mime::read_plans(list), ..marked },
                    env,
                    kind,
                    EventView::X11Targets(epoch, mime::advertised(list)),
                    what,
                );
            }
        },
        Happening::Snapshot(snapshot) => {
            let landed = SelView {
                snapshot: if snapshot.epoch == sel.broker.epoch {
                    Some(snapshot)
                } else {
                    sel.snapshot
                },
                capture: None,
                parked: seq![],
                ..sel
            };
            replay_moves_bytes_when_due(landed, env, kind, sel.parked, what);
        },
        Happening::Startup(owner) => {
            gap_moves_bytes_when_due(sel, env, kind, what);
            dispatch_moves_bytes_when_due(
                SelView { x11_owner: Some(owner), ..sel },
                env,
                kind,
                EventView::X11Selection,
                what,
            );
        },
        _ => {},
    }
}

proof fn gap_moves_bytes_when_due(sel: SelView, env: Env, kind: SelKind, what: Happening)
    ensures
        moves_bytes_when_due(sel.after_gap(env, kind).acts, env, what),
{
    if let Some(f) = sel.fill {
        let unset = SelView { fill: None, ..sel };
        dispatch_moves_bytes_when_due(
            SelView { x11_owner: None, ..unset },
            env,
            kind,
            EventView::WaylandSelection(f.types),
            what,
        );
        dispatch_moves_bytes_when_due(
            SelView { x11_owner: f.owner, ..unset },
            env,
            kind,
            EventView::X11Selection,
            what,
        );
    }
}

proof fn replay_moves_bytes_when_due(
    sel: SelView,
    env: Env,
    kind: SelKind,
    parked: Seq<ParkedView>,
    what: Happening,
)
    requires
        what is Snapshot,
    ensures
        moves_bytes_when_due(sel.replayed(env, kind, parked), env, what),
    decreases parked.len(),
{
    if parked.len() > 0 {
        replay_moves_bytes_when_due(sel, env, kind, parked.drop_last(), what);
    }
}

/// The payload is asked for before the selection is taken, because taking the
/// selection may end its source.
pub proof fn capture_comes_before_the_claim(
    sel: SelView,
    env: Env,
    kind: SelKind,
    atoms: Seq<u32>,
)
    requires
        env.running,
        sel.offer is Some,
        sel.proxied().len() > 0,
    ensures
        sel.after_interned(env, kind, sel.broker.epoch, atoms).acts == seq![
            ActionView::Capture(kind, sel.broker.epoch, sel.offer->0.id, sel.proxied()),
            ActionView::ClaimX11(kind),
        ],
{
    assert(sel.after_interned(env, kind, sel.broker.epoch, atoms).acts =~= seq![
        ActionView::Capture(kind, sel.broker.epoch, sel.offer->0.id, sel.proxied()),
        ActionView::ClaimX11(kind),
    ]);
}

/// Taking out the rows of one atom leaves what the table holds for others.
proof fn filtering_keeps_other_targets(
    targets: Seq<(u32, Seq<char>, Transform)>,
    gone: u32,
    atom: u32,
)
    requires
        atom != gone,
    ensures
        selection::target_at(targets.filter(selection::other_than(gone)), atom)
            == selection::target_at(targets, atom),
    decreases targets.len(),
{
    reveal(Seq::filter);
    let keep = selection::other_than(gone);
    if targets.len() > 0 {
        filtering_keeps_other_targets(targets.drop_last(), gone, atom);
        let front = targets.drop_last().filter(keep);
        if keep(targets.last()) {
            assert(front.push(targets.last()).drop_last() =~= front);
        }
    }
}

/// A row that is put into a table is what the table then holds for its atom;
/// what it holds for others stays.
pub proof fn a_row_serves_its_atom(
    targets: Seq<(u32, Seq<char>, Transform)>,
    row: (u32, Seq<char>, Transform),
    atom: u32,
)
    ensures
        selection::target_at(selection::with_target(targets, row), atom) == (if atom == row.0 {
            Some((row.1, row.2))
        } else {
            selection::target_at(targets, atom)
        }),
{
    let front = targets.filter(selection::other_than(row.0));
    assert(front.push(row).drop_last() =~= front);
    if atom != row.0 {
        filtering_keeps_other_targets(targets, row.0, atom);
    }
}

/// Every interned target is served from the type that its row names, where
/// rows share an atom only if they are the same.
pub proof fn interned_targets_serve_their_rows(
    atoms: Seq<u32>,
    rows: Seq<(Seq<char>, Seq<char>, Transform)>,
    i: int,
)
    requires
        atoms.len() == rows.len(),
        forall|j: int, k: int|
            0 <= j < rows.len() && 0 <= k < rows.len() && #[trigger] atoms[j] == #[trigger] atoms[k]
                ==> rows[j] == rows[k],
        0 <= i < rows.len(),
    ensures
        selection::target_at(selection::interned(atoms, rows), atoms[i]) == Some(
            (rows[i].1, rows[i].2),
        ),
    decreases rows.len(),
{
    let n = rows.len() - 1;
    let front = selection::interned(atoms.take(n), rows.drop_last());
    a_row_serves_its_atom(front, (atoms[n], rows.last().1, rows.last().2), atoms[i]);
    if atoms[i] != atoms[n] {
        let before = atoms.take(n);
        assert forall|j: int, k: int|
            0 <= j < n && 0 <= k < n && #[trigger] before[j] == #[trigger] before[k] implies
            rows.drop_last()[j] == rows.drop_last()[k] by {
            assert(atoms[j] == atoms[k]);
        }
        assert(before[i] == atoms[i]);
        interned_targets_serve_their_rows(before, rows.drop_last(), i);
    }
}

/// The targets that proxy a Wayland owner are told apart by their names.
proof fn names_tell_rows_apart(types: Seq<Seq<char>>, j: int, k: int)
    requires
        0 <= j < selection::proxy_rows(types).len(),
        0 <= k < selection::proxy_rows(types).len(),
        selection::proxy_rows(types)[j].0 == selection::proxy_rows(types)[k].0,
    ensures
        selection::proxy_rows(types)[j] == selection::proxy_rows(types)[k],
{
    let own = x11::to_intern(types);
    let keep = |t: Seq<char>| !x11::is_alias(t);
    let extra = mime::synthesized(types);
    assert forall|m: int| 0 <= m < own.len() && extra.len() > 0 implies #[trigger] own[m]
        != extra[0].0 by {
        assert(types.filter(keep).contains(own[m]));
        types.lemma_filter_contains_rev(keep, own[m]);
    }
}

/// The bridge's own atoms, which are answered before the table is looked at.
pub open spec fn is_own_atom(env: Env, atom: u32) -> bool {
    let atoms = env.x11.atoms;
    ||| atom == atoms.targets
    ||| atom == atoms.timestamp
    ||| atom == atoms.multiple
    ||| atom == atoms.utf8_string
    ||| atom == atoms.text
    ||| atom == x11::STRING
}

/// A Wayland copy, from the end of its gap window to an X11 paste. The gap is
/// filled, the targets are interned, the payload is captured, the selection is
/// taken, and the source may go away: a request for any target that was
/// advertised is then served from the captured payload of the type that the
/// target stands for. Targets of different names have different atoms.
#[verifier::rlimit(50)]
pub proof fn wayland_copy_reaches_the_x11_paste(
    sel: SelView,
    env: Env,
    kind: SelKind,
    types: Seq<Seq<char>>,
    atoms: Seq<u32>,
    i: int,
    time: u32,
    at: Instant,
    data: Map<Seq<char>, Seq<u8>>,
    source_exits: bool,
    recent: bool,
    req: SelectionRequest,
)
    requires
        sel.valid(),
        env.running,
        sel.offer is Some,
        sel.fill == Some(sel.fill_for_x11(types)),
        types.len() > 0,
        atoms.len() == selection::proxy_rows(types).len(),
        forall|j: int, k: int|
            0 <= j < atoms.len() && 0 <= k < atoms.len() && #[trigger] atoms[j]
                == #[trigger] atoms[k] ==> selection::proxy_rows(types)[j].0
                == selection::proxy_rows(types)[k].0,
        0 <= i < atoms.len(),
        !is_own_atom(env, atoms[i]),
        data.contains_key(selection::proxy_rows(types)[i].1),
        req.target == atoms[i],
    ensures
        ({
            let row = selection::proxy_rows(types)[i];
            let epoch = sel.broker.epoch + 1;
            let snapshot = SnapshotView { epoch, data };
            let filled = sel.after_gap(env, kind).sel;
            let interned = filled.after_interned(env, kind, epoch, atoms).sel;
            let capturing = interned.after_capture_started(epoch);
            let claimed = capturing.after_claimed(env, env.x11.win, time, at);
            let captured = claimed.after_snapshot(env, kind, snapshot).sel;
            let settled = if source_exits {
                captured.after_wayland_selection(env, kind, None, recent).sel
            } else {
                captured
            };
            let turn = settled.after_request(env, kind, req);
            &&& turn.sel == settled
            &&& turn.acts.len() == 1
            &&& turn.acts[0] matches ActionView::ServeSnapshot(reply, served)
            &&& served == snapshot
            &&& reply.paste.req == req
            &&& reply.paste.mime == row.1
            &&& reply.paste.transform == row.2
            &&& reply.paste.conversion == Conv::Verbatim
            &&& reply.paste.reply_type == req.target
        }),
{
    reveal(SelView::dispatched);
    let row = selection::proxy_rows(types)[i];
    let epoch = sel.broker.epoch + 1;
    let snapshot = SnapshotView { epoch, data };
    let filled = sel.after_gap(env, kind).sel;
    assert(filled.broker.state == StateView::WaylandApp(types));
    assert(filled.proxied() == types);
    let interned = filled.after_interned(env, kind, epoch, atoms).sel;
    assert forall|j: int, k: int|
        0 <= j < atoms.len() && 0 <= k < atoms.len() && #[trigger] atoms[j]
            == #[trigger] atoms[k] implies selection::proxy_rows(types)[j]
        == selection::proxy_rows(types)[k] by {
        names_tell_rows_apart(types, j, k);
    }
    interned_targets_serve_their_rows(atoms, selection::proxy_rows(types), i);
    assert(selection::target_at(interned.targets, req.target) == Some((row.1, row.2)));
    let capturing = interned.after_capture_started(epoch);
    let claimed = capturing.after_claimed(env, env.x11.win, time, at);
    let captured = claimed.after_snapshot(env, kind, snapshot).sel;
    assert(captured.snapshot == Some(snapshot));
    assert(captured.capture is None);
    assert(captured.owned_since == Some(time));
    if source_exits {
        captured_content_survives_its_source(captured, env, kind, recent);
    }
}

/// An X11 copy, from the end of its gap window to a Wayland paste. The owner's
/// targets are fetched and read, the Wayland selection is taken with their
/// translation, and a paste from it reads the owner: the planned target where
/// there is a plan, the type itself where there is none.
#[verifier::rlimit(50)]
pub proof fn x11_copy_reaches_the_wayland_paste(
    sel: SelView,
    env: Env,
    kind: SelKind,
    owner: u32,
    property: u32,
    names: Seq<Seq<char>>,
    mime: Seq<char>,
)
    requires
        sel.valid(),
        sel.fill == Some(sel.fill_for_wayland(owner)),
        property != x11::NONE,
        mime::advertised(names).len() > 0,
        !(env.skip_sensitive && names.contains(mime::KDE_PASSWORD_HINT@)),
        env.sync_mode is Lazy,
    ensures
        ({
            let epoch = sel.broker.epoch + 1;
            let filled = sel.after_gap(env, kind);
            let replied = filled.sel.after_targets_reply(env, kind, property);
            let read = replied.sel.after_targets_read(env, kind, epoch, Some(names));
            let source = sel.sources + 1;
            &&& filled.acts.last() == ActionView::FetchTargets(kind)
            &&& replied.acts == seq![ActionView::ReadTargets(kind, epoch)]
            &&& read.acts.last() == ActionView::ClaimWayland(kind, source, mime::advertised(names))
            &&& read.sel.send_plan(env, kind, source, mime) == selection::SendView::Read(
                (ReadView {
                    kind,
                    mime,
                    plan: selection::plan_at(mime::read_plans(names), mime),
                    timeout: env.transfer_timeout,
                }),
            )
        }),
{
    reveal(SelView::dispatched);
    let epoch = sel.broker.epoch + 1;
    let filled = sel.after_gap(env, kind);
    assert(filled.sel.broker == (BrokerView { state: StateView::X11App(seq![]), epoch }));
    let replied = filled.sel.after_targets_reply(env, kind, property);
    assert(replied.acts =~= seq![ActionView::ReadTargets(kind, epoch)]);
    let read = replied.sel.after_targets_read(env, kind, epoch, Some(names));
    assert(read.sel.snapshot is None);
}

/// In eager mode an X11 copy outlives its owner. Behind the claim on the Wayland
/// side all its types are fetched; once they are in, the owner may go away, and
/// a paste of any type that was fetched is served from memory. A type that was
/// left out, as too large, is read from the owner as in lazy mode.
#[verifier::rlimit(50)]
pub proof fn eager_x11_copy_outlives_its_owner(
    sel: SelView,
    env: Env,
    kind: SelKind,
    owner: u32,
    property: u32,
    names: Seq<Seq<char>>,
    data: Map<Seq<char>, Seq<u8>>,
    owner_exits: bool,
    mime: Seq<char>,
)
    requires
        sel.valid(),
        env.running,
        env.sync_mode is Eager,
        sel.fill == Some(sel.fill_for_wayland(owner)),
        property != x11::NONE,
        mime::advertised(names).len() > 0,
        !(env.skip_sensitive && names.contains(mime::KDE_PASSWORD_HINT@)),
    ensures
        ({
            let epoch = sel.broker.epoch + 1;
            let source = sel.sources + 1;
            let snapshot = SnapshotView { epoch, data };
            let filled = sel.after_gap(env, kind).sel;
            let replied = filled.after_targets_reply(env, kind, property).sel;
            let read = replied.after_targets_read(env, kind, epoch, Some(names));
            let fetched = read.sel.after_snapshot(env, kind, snapshot).sel;
            let settled = if owner_exits {
                fetched.after_x11_owner(env, kind, owner, false).sel
            } else {
                fetched
            };
            &&& read.acts.last() == ActionView::EagerFetch(
                kind,
                epoch,
                read.sel.all_reads(env, kind, mime::advertised(names)),
            )
            &&& settled.send_plan(env, kind, source, mime) == if data.contains_key(mime) {
                selection::SendView::Snapshot(snapshot)
            } else {
                selection::SendView::Read(
                    ReadView {
                        kind,
                        mime,
                        plan: selection::plan_at(mime::read_plans(names), mime),
                        timeout: env.transfer_timeout,
                    },
                )
            }
        }),
{
    reveal(SelView::dispatched);
    let epoch = sel.broker.epoch + 1;
    let filled = sel.after_gap(env, kind).sel;
    assert(filled.broker == (BrokerView { state: StateView::X11App(seq![]), epoch }));
    let replied = filled.after_targets_reply(env, kind, property).sel;
    let read = replied.after_targets_read(env, kind, epoch, Some(names));
    assert(read.sel.broker.state == StateView::X11App(mime::advertised(names)));
    let fetched = read.sel.after_snapshot(env, kind, SnapshotView { epoch, data }).sel;
    snapshots_survive_their_owner(fetched, env, kind, owner);
}

/// A paste that comes while the capture is in flight is held, and served from
/// the capture when that lands.
pub proof fn parked_pastes_are_served_from_the_capture(
    sel: SelView,
    env: Env,
    kind: SelKind,
    req: SelectionRequest,
    paste: PasteView,
    data: Map<Seq<char>, Seq<u8>>,
)
    requires
        sel.valid(),
        sel.capture is Some,
        sel.request_verdict(env, req) == RequestVerdict::Content(paste),
        data.contains_key(paste.mime),
    ensures
        ({
            let epoch = sel.broker.epoch;
            let snapshot = SnapshotView { epoch, data };
            let held = sel.after_request(env, kind, req);
            let landed = held.sel.after_snapshot(env, kind, snapshot);
            &&& held.acts.len() == 0
            &&& held.sel.parked == sel.parked.push(ParkedView { epoch, paste })
            &&& landed.sel.parked.len() == 0
            &&& landed.acts.len() > 0
            &&& landed.acts.last() == ActionView::ServeSnapshot(
                ReplyView { kind, paste, timeout: env.transfer_timeout },
                snapshot,
            )
        }),
{
    let epoch = sel.broker.epoch;
    let held = sel.after_request(env, kind, req).sel;
    assert(held.parked.drop_last() =~= sel.parked);
    assert(held.parked.last() == (ParkedView { epoch, paste }));
}

/// Text that was captured can be pasted, as UTF-8 or as legacy Latin-1, after
/// its source went away.
pub proof fn captured_text_outlives_its_source(
    sel: SelView,
    env: Env,
    kind: SelKind,
    req: SelectionRequest,
)
    requires
        sel.owned_since is Some,
        sel.offer is None,
        sel.capture is None,
        sel.snapshot is Some,
        mime::preferred_text(sel.proxied()) is Some,
        sel.snapshot->0.data.contains_key(mime::preferred_text(sel.proxied())->0),
        req.target == env.x11.atoms.utf8_string || req.target == env.x11.atoms.text || req.target
            == x11::STRING,
        req.target != env.x11.atoms.targets,
        req.target != env.x11.atoms.timestamp,
        req.target != env.x11.atoms.multiple,
    ensures
        ({
            let turn = sel.after_request(env, kind, req);
            &&& turn.sel == sel
            &&& turn.acts.len() == 1
            &&& turn.acts[0] matches ActionView::ServeSnapshot(reply, served)
            &&& served == sel.snapshot->0
            &&& reply.paste.mime == mime::preferred_text(sel.proxied())->0
            &&& reply.paste.conversion == (if req.target == x11::STRING {
                Conv::Utf8ToLatin1
            } else {
                Conv::Verbatim
            })
        }),
{
}

/// Loop prevention on the Wayland side: while the bridge's own data source is
/// alive, a selection event is its own claim, and nothing changes.
pub proof fn own_wayland_claim_is_ignored(
    app: AppView,
    kind: SelKind,
    offer: Option<OfferView>,
    recent: bool,
)
    requires
        app.sel(kind).source is Some,
    ensures
        app.after_wayland_selection(kind, offer, recent).app == app,
        claims_nothing(app.after_wayland_selection(kind, offer, recent).acts),
{
}

/// Loop prevention on the X11 side: an owner change to the bridge's own window
/// is its own claim, and nothing happens.
pub proof fn own_x11_claim_is_ignored(app: AppView, selection: u32, set_owner: bool)
    ensures
        app.after_x11_event(
            X11Event::SelectionOwner { selection, owner: app.env.x11.win, set_owner },
        ) == app.quiet(),
{
}

/// The two selections are independent: what happens to one leaves the other
/// as it was.
#[verifier::rlimit(50)]
pub proof fn selections_are_independent(
    app: AppView,
    offer: Option<OfferView>,
    recent: bool,
    generation: nat,
)
    ensures
        app.after_wayland_selection(SelKind::Clipboard, offer, recent).app.primary == app.primary,
        app.after_wayland_selection(SelKind::Clipboard, offer, recent).app.pending == app.pending,
        app.after_wayland_selection(SelKind::Primary, offer, recent).app.clipboard
            == app.clipboard,
        app.after_wayland_primary(offer, recent).app.clipboard == app.clipboard,
        app.after_debounce(generation, recent).app.clipboard == app.clipboard,
{
}

/// An X11 event touches at most the selection that it names.
#[verifier::rlimit(50)]
pub proof fn x11_events_touch_their_selection(app: AppView, event: X11Event, kind: SelKind)
    requires
        match event {
            X11Event::SelectionClear { selection } => app.kind_for(selection) != Some(kind),
            X11Event::SelectionRequest(req) => app.kind_for(req.selection) != Some(kind),
            X11Event::SelectionOwner { selection, .. } => app.kind_for(selection) != Some(kind),
            X11Event::SelectionNotify { selection, .. } => app.kind_for(selection) != Some(kind),
            X11Event::Other => true,
        },
    ensures
        app.after_x11_event(event).app.sel(kind) == app.sel(kind),
{
}

/// Unless PRIMARY is bridged, nothing that happens to it has any effect.
#[verifier::rlimit(50)]
pub proof fn primary_is_opt_in(
    app: AppView,
    event: X11Event,
    offer: Option<OfferView>,
    recent: bool,
)
    requires
        !app.env.primary,
    ensures
        app.after_x11_event(event).app.primary == app.primary,
        app.after_x11_event(event).app.pending == app.pending,
        app.after_wayland_primary(offer, recent).app == app,
        claims_nothing(app.after_wayland_primary(offer, recent).acts),
{
}

/// Only the latest of a row of PRIMARY changes counts: the timer of an earlier
/// one does nothing.
pub proof fn only_the_settled_primary_counts(
    app: AppView,
    first: PendingView,
    second: PendingView,
    recent: bool,
)
    requires
        app.env.running,
    ensures
        ({
            let one = app.debounced(first, recent);
            let two = one.app.debounced(second, recent);
            &&& one.acts == seq![ActionView::ArmPrimaryTimer(app.primary_gen + 1)]
            &&& two.acts == seq![ActionView::ArmPrimaryTimer(app.primary_gen + 2)]
            &&& two.app.primary == app.primary
            &&& two.app.after_debounce(app.primary_gen + 1, recent) == two.app.quiet()
            &&& two.app.pending == Some(second)
        }),
{
}

proof fn debounce_keeps_validity(app: AppView, generation: nat, recent: bool)
    requires
        app.valid(),
    ensures
        app.after_debounce(generation, recent).app.valid(),
{
    match app.pending {
        Some(PendingView::Wayland(offer)) => {
            validity_is_kept(
                app.primary,
                app.env,
                SelKind::Primary,
                Happening::WaylandSelection(offer, recent),
            );
        },
        Some(PendingView::X11(has_owner)) => {
            validity_is_kept(
                app.primary,
                app.env,
                SelKind::Primary,
                Happening::X11Primary(has_owner),
            );
        },
        None => {},
    }
}

/// The bridge stays valid whatever its surroundings report.
#[verifier::rlimit(50)]
pub proof fn the_bridge_stays_valid(
    app: AppView,
    event: X11Event,
    kind: SelKind,
    offer: Option<OfferView>,
    recent: bool,
    generation: nat,
    what: Happening,
)
    requires
        app.valid(),
    ensures
        app.after_x11_event(event).app.valid(),
        app.after_wayland_selection(kind, offer, recent).app.valid(),
        app.after_wayland_primary(offer, recent).app.valid(),
        app.after_debounce(generation, recent).app.valid(),
        app.with(kind, after(app.sel(kind), app.env, kind, what)).app.valid(),
{
    validity_is_kept(app.sel(kind), app.env, kind, what);
    debounce_keeps_validity(app, generation, recent);
    validity_is_kept(
        app.clipboard,
        app.env,
        SelKind::Clipboard,
        Happening::WaylandSelection(offer, recent),
    );
    let waiting = AppView {
        pending: Some(PendingView::Wayland(offer)),
        primary_gen: app.primary_gen + 1,
        ..app
    };
    debounce_keeps_validity(waiting, waiting.primary_gen, recent);
    match event {
        X11Event::SelectionClear { selection } => {
            if let Some(k) = app.kind_for(selection) {
                validity_is_kept(app.sel(k), app.env, k, Happening::Lost);
            }
        },
        X11Event::SelectionRequest(req) => {
            if let Some(k) = app.kind_for(req.selection) {
                validity_is_kept(app.sel(k), app.env, k, Happening::Request(req));
            }
        },
        X11Event::SelectionOwner { selection, owner, set_owner } => {
            let has_owner = owner != x11::NONE && set_owner;
            validity_is_kept(
                app.clipboard,
                app.env,
                SelKind::Clipboard,
                Happening::X11Owner(owner, has_owner),
            );
            let changed = AppView {
                pending: Some(PendingView::X11(has_owner)),
                primary_gen: app.primary_gen + 1,
                ..app
            };
            debounce_keeps_validity(changed, changed.primary_gen, false);
        },
        X11Event::SelectionNotify { requestor, selection, target, property } => {
            if let Some(k) = app.kind_for(selection) {
                validity_is_kept(app.sel(k), app.env, k, Happening::TargetsReply(property));
            }
        },
        X11Event::Other => {},
    }
}

/// Files that a Wayland client copies, in either list format, can be pasted on
/// the X11 side in both.
pub proof fn files_cross_in_both_formats(types: Seq<Seq<char>>)
    requires
        types.contains(mime::URI_LIST@) || types.contains(mime::GNOME_COPIED_FILES@),
    ensures
        selection::row_names(selection::proxy_rows(types)).contains(mime::URI_LIST@),
        selection::row_names(selection::proxy_rows(types)).contains(mime::GNOME_COPIED_FILES@),
{
    let rows = selection::proxy_rows(types);
    let own = x11::to_intern(types);
    let extra = mime::synthesized(types);
    mime::file_lists_are_not_aliases();
    assert forall|name: Seq<char>|
        (name == mime::URI_LIST@ || name == mime::GNOME_COPIED_FILES@) && types.contains(
            name,
        ) implies selection::row_names(rows).contains(name) by {
        let i = choose|i: int| 0 <= i < types.len() && types[i] == name;
        types.lemma_filter_contains(|t: Seq<char>| !x11::is_alias(t), i);
        let k = choose|k: int| 0 <= k < own.len() && own[k] == name;
        assert(selection::row_names(rows)[k] == name);
    }
    if extra.len() > 0 {
        assert(selection::row_names(rows)[own.len() as int] == extra[0].0);
    }
}

} // verus!
