//! One selection: its broker and everything that a proxy claim carries.

use std::sync::Arc;
use std::time::Instant;

use vstd::prelude::*;

use crate::action;
use crate::action::{Action, ActionView, Env, Paste, PasteView, ReadView, ReplyView};
use crate::broker;
use crate::broker::{Broker, BrokerView, Command, CommandView, Event, EventView, State, StateView};
use crate::cli::SyncMode;
use crate::mime;
use crate::mime::Transform;
use crate::payload::{Snapshot, SnapshotView};
use crate::text;
use crate::transfer;
use crate::transfer::{Conv, PasteReply, X2wRequest};
use crate::wayland;
use crate::wayland::{Offer, OfferView};
use crate::x11;
use crate::x11::SelectionRequest;
use crate::SelKind;

verus! {

/// A point in time.
#[verifier::external_type_specification]
#[verifier::external_body]
pub struct ExInstant(Instant);

/// `std::time::Instant::now`. Nothing is claimed of the clock.
#[verifier::external_body]
fn now() -> Instant {
    Instant::now()
}

/// `std::time::Instant::elapsed`, in nanoseconds. Nothing is claimed of the
/// clock.
#[verifier::external_body]
fn age_nanos(at: &Instant) -> u128 {
    at.elapsed().as_nanos()
}

/// How long after the bridge's own X11 claim an incoming Wayland offer without
/// X11 fingerprint may still be that claim mirrored back, in nanoseconds. The
/// mirror lands in well under a millisecond; a wider window would swallow a
/// genuine second copy.
pub const MIRROR_ECHO_WINDOW_NS: u128 = 10_000_000;

/// The clock can say that this is the present.
pub closed spec fn clock_shows(at: Instant) -> bool {
    call_ensures(now, (), at)
}

/// The clock can say that this point in time lies that many nanoseconds back.
pub closed spec fn clock_measures(at: Instant, age: u128) -> bool {
    call_ensures(age_nanos, (&at,), age)
}

/// A claim of this age is within the echo window.
pub open spec fn in_echo_window(age: u128) -> bool {
    age <= MIRROR_ECHO_WINDOW_NS
}

/// What the clock can say of whether a claim made at a point in time is within
/// the echo window: the age that it measures of that very point decides.
pub open spec fn judged_recent(at: Instant, recent: bool) -> bool {
    exists|age: u128| #[trigger] clock_measures(at, age) && recent == in_echo_window(age)
}

/// True when a claim of this age, in nanoseconds, is within the echo window.
pub fn is_within_echo_window(age: u128) -> (r: bool)
    ensures
        r == in_echo_window(age),
{
    age <= MIRROR_ECHO_WINDOW_NS
}

/// An X11 claim of the bridge, kept to recognise the Xwayland window manager
/// mirroring it back onto the Wayland clipboard.
pub struct OwnX11Claim {
    pub at: Instant,
    pub mime_types: Vec<String>,
}

/// The claim, with its types as texts.
#[verifier::ext_equal]
pub struct ClaimView {
    pub at: Instant,
    pub types: Seq<Seq<char>>,
}

impl View for OwnX11Claim {
    type V = ClaimView;

    open spec fn view(&self) -> ClaimView {
        ClaimView { at: self.at, types: text::texts(self.mime_types@) }
    }
}

/// An offer can only be a claim coming back: it advertises no content type
/// that the claim did not, and it is identifiable as a mirror, by X11 protocol
/// names among its types or by how soon it came. An offer without content is
/// nobody's echo.
pub open spec fn is_echo_of(
    claimed: Seq<Seq<char>>,
    offered: Seq<Seq<char>>,
    recent: bool,
) -> bool {
    &&& mime::content(offered).len() > 0
    &&& forall|i: int|
        0 <= i < mime::content(offered).len() ==> claimed.contains(
            #[trigger] mime::content(offered)[i],
        )
    &&& mime::is_mirror(offered) || recent
}

impl OwnX11Claim {
    /// True when an offer with these types, which came within the echo window
    /// or did not, can only be this claim coming back.
    pub fn is_echo_at(&self, mime_types: &[String], recent: bool) -> (r: bool)
        ensures
            r == is_echo_of(text::texts(self.mime_types@), text::texts(mime_types@), recent),
    {
        let content = mime::content_types(mime_types);
        if content.len() == 0 {
            return false;
        }
        for i in 0..content.len()
            invariant
                text::texts(content@) == mime::content(text::texts(mime_types@)),
                forall|j: int|
                    0 <= j < i ==> text::texts(self.mime_types@).contains(
                        #[trigger] text::texts(content@)[j],
                    ),
        {
            if !text::contains(self.mime_types.as_slice(), content[i].as_str()) {
                assert(!text::texts(self.mime_types@).contains(
                    mime::content(text::texts(mime_types@))[i as int],
                ));
                return false;
            }
        }
        mime::is_x11_mirror(mime_types) || recent
    }

    /// True while an offer without fingerprint may still be this claim.
    fn is_recent(&self) -> (r: bool)
        ensures
            judged_recent(self.at, r),
    {
        let age: u128 = age_nanos(&self.at);
        assert(clock_measures(self.at, age));
        is_within_echo_window(age)
    }

    /// True when an offer with these types can only be this claim coming back.
    /// Whether it came soon enough is the clock's to say.
    pub fn is_echo(&self, mime_types: &[String]) -> (r: bool)
        ensures
            exists|recent: bool| #[trigger]
                judged_recent(self.at, recent) && r == is_echo_of(
                    text::texts(self.mime_types@),
                    text::texts(mime_types@),
                    recent,
                ),
    {
        let recent = self.is_recent();
        self.is_echo_at(mime_types, recent)
    }
}

/// A proxied type on the X11 side: its atom, the type to read for it, and what
/// to do to the bytes.
pub type Target = (u32, String, Transform);

/// The targets of a table, with their types as texts.
pub open spec fn table(targets: Seq<Target>) -> Seq<(u32, Seq<char>, Transform)> {
    targets.map_values(|t: Target| (t.0, t.1@, t.2))
}

/// What a table holds for an atom; a later row hides an earlier one.
pub open spec fn target_at(targets: Seq<(u32, Seq<char>, Transform)>, atom: u32) -> Option<
    (Seq<char>, Transform),
>
    decreases targets.len(),
{
    if targets.len() == 0 {
        None
    } else if targets.last().0 == atom {
        Some((targets.last().1, targets.last().2))
    } else {
        target_at(targets.drop_last(), atom)
    }
}

/// The rows of other atoms.
pub open spec fn other_than(atom: u32) -> spec_fn((u32, Seq<char>, Transform)) -> bool {
    |t: (u32, Seq<char>, Transform)| t.0 != atom
}

/// A table with one more row; it replaces what the table held for the atom.
pub open spec fn with_target(
    targets: Seq<(u32, Seq<char>, Transform)>,
    row: (u32, Seq<char>, Transform),
) -> Seq<(u32, Seq<char>, Transform)> {
    targets.filter(other_than(row.0)).push(row)
}

/// The plan for a type; a later row hides an earlier one.
pub open spec fn plan_at(
    plans: Seq<(Seq<char>, Seq<char>, Transform)>,
    mime: Seq<char>,
) -> Option<(Seq<char>, Transform)>
    decreases plans.len(),
{
    if plans.len() == 0 {
        None
    } else if plans.last().0 == mime {
        Some((plans.last().1, plans.last().2))
    } else {
        plan_at(plans.drop_last(), mime)
    }
}

/// The X11 targets that proxy a Wayland owner: every type but the legacy text
/// names under its own name, then the synthesized ones. Each row is the
/// target's name, the type to read, and what to do to the bytes.
pub open spec fn proxy_rows(types: Seq<Seq<char>>) -> Seq<(Seq<char>, Seq<char>, Transform)> {
    x11::to_intern(types).map_values(|t: Seq<char>| (t, t, Transform::Identity))
        + mime::synthesized(types)
}

/// The names of the rows.
pub open spec fn row_names(rows: Seq<(Seq<char>, Seq<char>, Transform)>) -> Seq<Seq<char>> {
    rows.map_values(|r: (Seq<char>, Seq<char>, Transform)| r.0)
}

/// The table that atoms make of rows, one by one.
pub open spec fn interned(
    atoms: Seq<u32>,
    rows: Seq<(Seq<char>, Seq<char>, Transform)>,
) -> Seq<(u32, Seq<char>, Transform)>
    decreases rows.len(),
{
    if rows.len() == 0 || atoms.len() < rows.len() {
        seq![]
    } else {
        let n = rows.len() - 1;
        with_target(
            interned(atoms.take(n), rows.drop_last()),
            (atoms[n], rows.last().1, rows.last().2),
        )
    }
}

/// A copy happened on one side: the other side is to be filled unless it
/// updates by itself first.
pub struct PendingFill {
    pub fill_x11: bool,
    pub wl_gen: u64,
    pub x11_gen: u64,
    /// The types to offer on the X11 side.
    pub mime_types: Vec<String>,
    /// The X11 owner to proxy on the Wayland side.
    pub owner: Option<u32>,
}

/// The pending fill, with its types as texts.
#[verifier::ext_equal]
pub struct FillView {
    pub fill_x11: bool,
    pub wl_gen: nat,
    pub x11_gen: nat,
    pub types: Seq<Seq<char>>,
    pub owner: Option<u32>,
}

impl View for PendingFill {
    type V = FillView;

    open spec fn view(&self) -> FillView {
        FillView {
            fill_x11: self.fill_x11,
            wl_gen: self.wl_gen as nat,
            x11_gen: self.x11_gen as nat,
            types: text::texts(self.mime_types@),
            owner: self.owner,
        }
    }
}

/// A paste that came while the capture for its claim was still in flight,
/// with the epoch of that claim.
pub struct ParkedPaste {
    pub epoch: u64,
    pub paste: Paste,
}

/// The parked paste, with its type as text.
#[verifier::ext_equal]
pub struct ParkedView {
    pub epoch: nat,
    pub paste: PasteView,
}

impl View for ParkedPaste {
    type V = ParkedView;

    open spec fn view(&self) -> ParkedView {
        ParkedView { epoch: self.epoch as nat, paste: self.paste@ }
    }
}

/// The parked pastes, one by one.
pub open spec fn held_back(list: Seq<ParkedPaste>) -> Seq<ParkedView> {
    list.map_values(|p: ParkedPaste| p@)
}

/// One selection.
#[verifier::ext_equal]
pub struct SelView {
    pub broker: BrokerView,
    /// The live Wayland offer.
    pub offer: Option<OfferView>,
    /// The bridge's own Wayland data source.
    pub source: Option<nat>,
    /// How many data sources there have been.
    pub sources: nat,
    /// The bridge's own X11 claim.
    pub claim: Option<ClaimView>,
    /// The targets advertised on the X11 side.
    pub targets: Seq<(u32, Seq<char>, Transform)>,
    /// How to read types from the X11 owner.
    pub plans: Seq<(Seq<char>, Seq<char>, Transform)>,
    /// The claim whose targets were asked for.
    pub pending_targets: Option<nat>,
    /// The X11 owner that is proxied.
    pub x11_owner: Option<u32>,
    /// How many times each side changed hands, the bridge's own claims aside.
    pub wl_gen: nat,
    pub x11_gen: nat,
    pub fill: Option<FillView>,
    /// The content is marked as a secret.
    pub sensitive: bool,
    pub snapshot: Option<SnapshotView>,
    /// The claim whose capture is in flight.
    pub capture: Option<nat>,
    pub parked: Seq<ParkedView>,
    /// Since when the bridge owns the X11 selection.
    pub owned_since: Option<u32>,
    /// The claim that was already taken back from another bridge.
    pub reclaimed: Option<nat>,
    /// The Wayland side has an owner.
    pub wayland_owned: bool,
}

/// The selection after an event, and what the event asks for.
#[verifier::ext_equal]
pub struct Turn {
    pub sel: SelView,
    pub acts: Seq<ActionView>,
}

/// Refusals for all parked pastes.
pub open spec fn refusals(parked: Seq<ParkedView>) -> Seq<ActionView> {
    parked.map_values(
        |p: ParkedView| ActionView::Notify(transfer::answer(p.paste.req, None)),
    )
}

/// What becomes of a Wayland selection event.
pub enum WaylandVerdict {
    /// The bridge's own X11 claim, mirrored back: observed, nothing changes.
    Echo,
    /// Another bridge's mirror of the X11 side: counted, never bridged.
    Mirror,
    /// A secret, and secrets are not bridged.
    Secret,
    /// The answer of another bridge to the X11 copy that is waiting to be
    /// filled in: never bridged back.
    Answer,
    /// Nothing to bridge.
    Nothing,
    /// Claim the X11 side at once.
    Claim,
    /// Claim the X11 side unless it updates by itself.
    Schedule,
    /// The source is gone, but its content is not.
    Survive,
    /// The selection was cleared.
    Clear,
}

/// What becomes of an X11 owner change.
pub enum X11Verdict {
    /// Another bridge took the bridge's claim: take it back, once per claim.
    Reclaim,
    /// Another bridge's claim: counted, never bridged.
    Bridge,
    /// The answer of another bridge to the Wayland copy that is waiting to be
    /// filled in: never bridged back.
    Answer,
    /// Proxy the owner at once.
    Proxy,
    /// Proxy the owner unless the Wayland side updates by itself.
    Schedule,
    /// The owner is gone, but its content is not.
    Survive,
    /// The selection was cleared.
    Clear,
}

/// How a selection request is answered.
pub enum RequestVerdict {
    Refuse,
    /// With values, of this type.
    Values(u32, Seq<u32>),
    /// With content.
    Content(PasteView),
}

/// How a paste is answered.
pub enum PasteVerdict {
    /// Held until the capture lands.
    Park,
    /// From memory.
    Snapshot,
    /// From the live offer.
    Live,
    Refuse,
}

impl SelView {
    /// A selection at the start.
    pub open spec fn initial() -> Self {
        SelView {
            broker: BrokerView::initial(),
            offer: None,
            source: None,
            sources: 0,
            claim: None,
            targets: seq![],
            plans: seq![],
            pending_targets: None,
            x11_owner: None,
            wl_gen: 0,
            x11_gen: 0,
            fill: None,
            sensitive: false,
            snapshot: None,
            capture: None,
            parked: seq![],
            owned_since: None,
            reclaimed: None,
            wayland_owned: false,
        }
    }

    /// What holds of a selection at all times. What was captured, is being
    /// captured or waits for a capture belongs to the present claim; a paste
    /// waits only while a capture is in flight; a pending fill is not ahead of
    /// the counters.
    pub open spec fn valid(self) -> bool {
        &&& self.snapshot matches Some(s) ==> s.epoch == self.broker.epoch
        &&& self.capture matches Some(e) ==> e == self.broker.epoch
        &&& self.parked.len() > 0 ==> self.capture is Some
        &&& forall|i: int|
            0 <= i < self.parked.len() ==> (#[trigger] self.parked[i]).epoch == self.broker.epoch
        &&& self.pending_targets matches Some(e) ==> e <= self.broker.epoch
        &&& self.fill matches Some(f) ==> f.wl_gen <= self.wl_gen && f.x11_gen <= self.x11_gen
        &&& self.source matches Some(s) ==> s <= self.sources
    }

    /// All counters can still be advanced.
    pub open spec fn has_room(self) -> bool {
        &&& self.broker.epoch < u64::MAX
        &&& self.wl_gen < u64::MAX
        &&& self.x11_gen < u64::MAX
        &&& self.sources < u64::MAX
    }

    /// Nothing asked for.
    pub open spec fn quiet(self) -> Turn {
        Turn { sel: self, acts: seq![] }
    }

    /// A copy on one side waits to be filled in on the X11 side, or on the
    /// Wayland side.
    pub open spec fn waits_to_fill(self, x11_side: bool) -> bool {
        self.fill matches Some(f) && f.fill_x11 == x11_side
    }

    /// The types of the Wayland owner that is proxied.
    pub open spec fn proxied(self) -> Seq<Seq<char>> {
        match self.broker.state {
            StateView::WaylandApp(types) => types,
            _ => seq![],
        }
    }

    /// The reads that fetch all these types from the X11 owner.
    pub open spec fn all_reads(self, env: Env, kind: SelKind, types: Seq<Seq<char>>) -> Seq<
        ReadView,
    > {
        types.map_values(
            |mime: Seq<char>|
                ReadView {
                    kind,
                    mime,
                    plan: plan_at(self.plans, mime),
                    timeout: env.transfer_timeout,
                },
        )
    }

    /// A command of the broker.
    pub open spec fn run(self, env: Env, kind: SelKind, command: CommandView) -> Turn {
        match command {
            CommandView::ClaimX11(epoch) => Turn {
                sel: self,
                acts: seq![
                    ActionView::InternTargets(kind, epoch, row_names(proxy_rows(self.proxied()))),
                ],
            },
            CommandView::ReleaseX11 => Turn {
                sel: SelView {
                    targets: seq![],
                    claim: None,
                    capture: None,
                    parked: seq![],
                    owned_since: None,
                    ..self
                },
                acts: refusals(self.parked) + match self.owned_since {
                    Some(time) => seq![ActionView::ReleaseX11(kind, time)],
                    None => seq![],
                },
            },
            CommandView::FetchX11Targets(epoch) => Turn {
                sel: SelView { pending_targets: Some(epoch), ..self },
                acts: seq![ActionView::FetchTargets(kind)],
            },
            CommandView::ClaimWayland(epoch, types) => {
                let replaced = match self.source {
                    Some(source) => seq![ActionView::DestroySource(kind, source)],
                    None => seq![],
                };
                let claimed = seq![ActionView::ClaimWayland(kind, self.sources + 1, types)];
                let fetched = if env.sync_mode is Eager && env.running {
                    seq![ActionView::EagerFetch(kind, epoch, self.all_reads(env, kind, types))]
                } else {
                    seq![]
                };
                Turn {
                    sel: SelView {
                        source: Some(self.sources + 1),
                        sources: self.sources + 1,
                        ..self
                    },
                    acts: replaced + claimed + fetched,
                }
            },
            CommandView::ReleaseWayland => Turn {
                sel: SelView { source: None, ..self },
                acts: match self.source {
                    Some(source) => seq![ActionView::ReleaseWayland(kind, source)],
                    None => seq![],
                },
            },
        }
    }

    /// The selection with its broker moved on. A change of ownership drops the
    /// snapshot and the capture, and refuses what was parked on it.
    pub open spec fn moved(self, broker: BrokerView) -> Turn {
        if broker.epoch == self.broker.epoch {
            SelView { broker, ..self }.quiet()
        } else {
            Turn {
                sel: SelView { broker, snapshot: None, capture: None, parked: seq![], ..self },
                acts: refusals(self.parked),
            }
        }
    }

    /// An event of the broker, with the commands it asks for.
    #[verifier::opaque]
    pub open spec fn dispatched(self, env: Env, kind: SelKind, event: EventView) -> Turn {
        let moved = self.moved(self.broker.after(event));
        let asked = self.broker.asks(event);
        if asked.len() == 0 {
            moved
        } else {
            let ran = moved.sel.run(env, kind, asked[0]);
            Turn { sel: ran.sel, acts: moved.acts + ran.acts }
        }
    }

    /// The source of a proxied side went away: its content is still there. On
    /// the Wayland side the capture keeps it; on the X11 side an eager
    /// snapshot does.
    pub open spec fn survives(self, env: Env, x11_side: bool) -> bool {
        match self.broker.state {
            StateView::WaylandApp(_) => !x11_side && (self.capture is Some || self.snapshot is Some),
            StateView::X11App(_) => x11_side && env.sync_mode is Eager && self.snapshot is Some,
            StateView::Idle => false,
        }
    }

    /// What the clock can say of whether the bridge's own X11 claim was made
    /// within the echo window. Where there is no claim it was not.
    pub open spec fn claim_judged_recent(self, recent: bool) -> bool {
        match self.claim {
            Some(own) => judged_recent(own.at, recent),
            None => !recent,
        }
    }

    /// What becomes of a Wayland selection event. `recent` says whether the
    /// bridge's own X11 claim was made within the echo window.
    pub open spec fn wayland_verdict(
        self,
        env: Env,
        offer: Option<OfferView>,
        recent: bool,
    ) -> WaylandVerdict {
        match offer {
            None => if self.survives(env, false) {
                WaylandVerdict::Survive
            } else {
                WaylandVerdict::Clear
            },
            Some(o) => if self.claim matches Some(own) && is_echo_of(own.types, o.types, recent) {
                WaylandVerdict::Echo
            } else if mime::is_mirror(o.types) {
                WaylandVerdict::Mirror
            } else if o.types.contains(mime::KDE_PASSWORD_HINT@) && env.skip_sensitive {
                WaylandVerdict::Secret
            } else if !env.aggressive_claims && self.waits_to_fill(false) {
                WaylandVerdict::Answer
            } else if mime::content(o.types).len() == 0 {
                WaylandVerdict::Nothing
            } else if env.aggressive_claims && env.running {
                WaylandVerdict::Claim
            } else {
                WaylandVerdict::Schedule
            },
        }
    }

    /// The Wayland side changed hands: the old offer goes.
    pub open spec fn wayland_changed(self, owned: bool) -> Turn {
        Turn {
            sel: SelView {
                offer: None,
                wl_gen: self.wl_gen + 1,
                wayland_owned: owned,
                ..self
            },
            acts: match self.offer {
                Some(old) => seq![ActionView::DestroyOffer(old.id)],
                None => seq![],
            },
        }
    }

    /// The selection with the offer that is now the live one.
    pub open spec fn offered(self, offer: OfferView) -> Self {
        SelView {
            offer: Some(offer),
            sensitive: offer.types.contains(mime::KDE_PASSWORD_HINT@),
            ..self
        }
    }

    /// A fill of the X11 side, as of now.
    pub open spec fn fill_for_x11(self, types: Seq<Seq<char>>) -> FillView {
        FillView { fill_x11: true, wl_gen: self.wl_gen, x11_gen: self.x11_gen, types, owner: None }
    }

    /// A fill of the Wayland side, as of now.
    pub open spec fn fill_for_wayland(self, owner: u32) -> FillView {
        FillView {
            fill_x11: false,
            wl_gen: self.wl_gen,
            x11_gen: self.x11_gen,
            types: seq![],
            owner: Some(owner),
        }
    }

    /// The Wayland selection changed: an offer took it, or it was cleared.
    pub open spec fn after_wayland_selection(
        self,
        env: Env,
        kind: SelKind,
        offer: Option<OfferView>,
        recent: bool,
    ) -> Turn {
        let changed = self.wayland_changed(offer is Some);
        match self.wayland_verdict(env, offer, recent) {
            WaylandVerdict::Echo => Turn {
                sel: self,
                acts: seq![ActionView::DestroyOffer(offer->0.id)],
            },
            WaylandVerdict::Mirror => Turn {
                sel: changed.sel,
                acts: changed.acts.push(ActionView::DestroyOffer(offer->0.id)),
            },
            WaylandVerdict::Secret => {
                let next = SelView { sensitive: true, ..changed.sel }.dispatched(
                    env,
                    kind,
                    EventView::WaylandCleared,
                );
                Turn {
                    sel: next.sel,
                    acts: changed.acts.push(ActionView::DestroyOffer(offer->0.id)) + next.acts,
                }
            },
            WaylandVerdict::Answer => Turn {
                sel: SelView { fill: None, ..changed.sel.offered(offer->0) },
                acts: changed.acts,
            },
            WaylandVerdict::Nothing => {
                let next = changed.sel.offered(offer->0).dispatched(
                    env,
                    kind,
                    EventView::WaylandCleared,
                );
                Turn { sel: next.sel, acts: changed.acts + next.acts }
            },
            WaylandVerdict::Claim => {
                let next = SelView { x11_owner: None, ..changed.sel.offered(offer->0) }.dispatched(
                    env,
                    kind,
                    EventView::WaylandSelection(mime::content(offer->0.types)),
                );
                Turn { sel: next.sel, acts: changed.acts + next.acts }
            },
            WaylandVerdict::Schedule => Turn {
                sel: SelView {
                    fill: Some(changed.sel.fill_for_x11(mime::content(offer->0.types))),
                    ..changed.sel.offered(offer->0)
                },
                acts: changed.acts + if env.running {
                    seq![ActionView::ArmGapTimer(kind)]
                } else {
                    seq![]
                },
            },
            WaylandVerdict::Survive => changed,
            WaylandVerdict::Clear => {
                let next = SelView { sensitive: false, ..changed.sel }.dispatched(
                    env,
                    kind,
                    EventView::WaylandCleared,
                );
                Turn { sel: next.sel, acts: changed.acts + next.acts }
            },
        }
    }

    /// The compositor cancelled a data source of the bridge.
    pub open spec fn after_source_cancelled(self, kind: SelKind, source: nat) -> Turn {
        Turn {
            sel: SelView {
                source: if self.source == Some(source) {
                    None
                } else {
                    self.source
                },
                ..self
            },
            acts: seq![ActionView::DestroySource(kind, source)],
        }
    }

    /// The gap window passed: the gap is filled unless either side changed
    /// since the copy.
    pub open spec fn after_gap(self, env: Env, kind: SelKind) -> Turn {
        match self.fill {
            None => self.quiet(),
            Some(f) => {
                let unset = SelView { fill: None, ..self };
                if self.wl_gen != f.wl_gen || self.x11_gen != f.x11_gen {
                    unset.quiet()
                } else if f.fill_x11 {
                    SelView { x11_owner: None, ..unset }.dispatched(
                        env,
                        kind,
                        EventView::WaylandSelection(f.types),
                    )
                } else {
                    SelView { x11_owner: f.owner, ..unset }.dispatched(
                        env,
                        kind,
                        EventView::X11Selection,
                    )
                }
            },
        }
    }

    /// What becomes of an X11 owner change that is not the bridge's own.
    pub open spec fn x11_verdict(self, env: Env, owner: u32, has_owner: bool) -> X11Verdict {
        if !has_owner {
            if self.survives(env, true) {
                X11Verdict::Survive
            } else {
                X11Verdict::Clear
            }
        } else if env.wm_window == Some(owner) {
            if env.aggressive_claims && self.broker.state is WaylandApp && self.reclaimed != Some(
                self.broker.epoch,
            ) {
                X11Verdict::Reclaim
            } else {
                X11Verdict::Bridge
            }
        } else if !env.aggressive_claims && self.waits_to_fill(true) {
            X11Verdict::Answer
        } else if env.aggressive_claims || !env.running {
            X11Verdict::Proxy
        } else {
            X11Verdict::Schedule
        }
    }

    /// The X11 selection changed hands.
    pub open spec fn after_x11_owner(
        self,
        env: Env,
        kind: SelKind,
        owner: u32,
        has_owner: bool,
    ) -> Turn {
        let counted = SelView { x11_gen: self.x11_gen + 1, ..self };
        match self.x11_verdict(env, owner, has_owner) {
            X11Verdict::Reclaim => Turn {
                sel: SelView { reclaimed: Some(self.broker.epoch), ..counted },
                acts: seq![ActionView::ReclaimX11(kind)],
            },
            X11Verdict::Bridge => counted.quiet(),
            X11Verdict::Answer => SelView { fill: None, ..counted }.quiet(),
            X11Verdict::Proxy => SelView { x11_owner: Some(owner), ..counted }.dispatched(
                env,
                kind,
                EventView::X11Selection,
            ),
            X11Verdict::Schedule => Turn {
                sel: SelView { fill: Some(counted.fill_for_wayland(owner)), ..counted },
                acts: seq![ActionView::ArmGapTimer(kind)],
            },
            X11Verdict::Survive => counted.quiet(),
            X11Verdict::Clear => SelView { x11_owner: None, ..counted }.dispatched(
                env,
                kind,
                EventView::X11Cleared,
            ),
        }
    }

    /// A debounced PRIMARY change on the X11 side.
    pub open spec fn after_x11_primary(self, env: Env, kind: SelKind, has_owner: bool) -> Turn {
        if has_owner {
            self.dispatched(env, kind, EventView::X11Selection)
        } else if self.survives(env, true) {
            self.quiet()
        } else {
            self.dispatched(env, kind, EventView::X11Cleared)
        }
    }

    /// A real X11 client took the X11 selection from the bridge.
    pub open spec fn after_lost(self, env: Env, kind: SelKind) -> Turn {
        SelView { owned_since: None, claim: None, ..self }.dispatched(
            env,
            kind,
            EventView::X11Lost,
        )
    }

    /// The X11 owner answered the request for its targets.
    pub open spec fn after_targets_reply(self, env: Env, kind: SelKind, property: u32) -> Turn {
        match self.pending_targets {
            None => self.quiet(),
            Some(epoch) => {
                let unset = SelView { pending_targets: None, ..self };
                if property == x11::NONE {
                    unset.dispatched(env, kind, EventView::X11Targets(epoch, seq![]))
                } else {
                    Turn { sel: unset, acts: seq![ActionView::ReadTargets(kind, epoch)] }
                }
            },
        }
    }

    /// The names of the X11 owner's targets were read, or could not be.
    pub open spec fn after_targets_read(
        self,
        env: Env,
        kind: SelKind,
        epoch: nat,
        names: Option<Seq<Seq<char>>>,
    ) -> Turn {
        match names {
            None => self.dispatched(env, kind, EventView::X11Targets(epoch, seq![])),
            Some(list) => {
                let secret = list.contains(mime::KDE_PASSWORD_HINT@);
                let marked = SelView { sensitive: secret, ..self };
                if secret && env.skip_sensitive {
                    marked.dispatched(env, kind, EventView::X11Targets(epoch, seq![]))
                } else {
                    SelView { plans: mime::read_plans(list), ..marked }.dispatched(
                        env,
                        kind,
                        EventView::X11Targets(epoch, mime::advertised(list)),
                    )
                }
            },
        }
    }

    /// The property to answer through: an obsolete client that names none
    /// means the target.
    pub open spec fn reply_property(req: SelectionRequest) -> u32 {
        if req.property == x11::NONE {
            req.target
        } else {
            req.property
        }
    }

    /// The type to read for a request for text: what the live offer has, or,
    /// where the source is gone, what was captured of it.
    pub open spec fn text_source(self) -> Option<Seq<char>> {
        match self.offer {
            Some(o) => mime::preferred_text(o.types),
            None => mime::preferred_text(self.proxied()),
        }
    }

    /// How a selection request is answered.
    pub open spec fn request_verdict(self, env: Env, req: SelectionRequest) -> RequestVerdict {
        let atoms = env.x11.atoms;
        let has_text = mime::preferred_text(self.proxied()) is Some;
        let property = Self::reply_property(req);
        if self.owned_since is None {
            RequestVerdict::Refuse
        } else if req.target == atoms.targets {
            RequestVerdict::Values(
                x11::ATOM,
                seq![atoms.targets, atoms.timestamp] + (if has_text {
                    seq![atoms.utf8_string, atoms.text, x11::STRING]
                } else {
                    seq![]
                }) + self.targets.map_values(|t: (u32, Seq<char>, Transform)| t.0),
            )
        } else if req.target == atoms.timestamp {
            RequestVerdict::Values(x11::INTEGER, seq![self.owned_since->0])
        } else if req.target == atoms.multiple {
            RequestVerdict::Refuse
        } else if has_text && (req.target == atoms.utf8_string || req.target == atoms.text
            || req.target == x11::STRING) {
            match self.text_source() {
                None => RequestVerdict::Refuse,
                Some(mime) => RequestVerdict::Content(
                    PasteView {
                        req,
                        property,
                        mime,
                        reply_type: if req.target == x11::STRING {
                            x11::STRING
                        } else {
                            atoms.utf8_string
                        },
                        conversion: if req.target == x11::STRING {
                            Conv::Utf8ToLatin1
                        } else {
                            Conv::Verbatim
                        },
                        transform: Transform::Identity,
                    },
                ),
            }
        } else {
            match target_at(self.targets, req.target) {
                Some((mime, transform)) => RequestVerdict::Content(
                    PasteView {
                        req,
                        property,
                        mime,
                        reply_type: req.target,
                        conversion: Conv::Verbatim,
                        transform,
                    },
                ),
                None => RequestVerdict::Refuse,
            }
        }
    }

    /// How a paste is answered. While the capture for the claim is in flight
    /// the source may already be gone, so the paste waits for it.
    pub open spec fn paste_verdict(self, mime: Seq<char>) -> PasteVerdict {
        if self.capture == Some(self.broker.epoch) {
            PasteVerdict::Park
        } else if self.snapshot matches Some(s) && s.data.contains_key(mime) {
            PasteVerdict::Snapshot
        } else if self.offer matches Some(o) && o.types.contains(mime) {
            PasteVerdict::Live
        } else {
            PasteVerdict::Refuse
        }
    }

    /// A paste of known type.
    pub open spec fn after_paste(self, env: Env, kind: SelKind, paste: PasteView) -> Turn {
        let reply = ReplyView { kind, paste, timeout: env.transfer_timeout };
        match self.paste_verdict(paste.mime) {
            PasteVerdict::Park => SelView {
                parked: self.parked.push(ParkedView { epoch: self.broker.epoch, paste }),
                ..self
            }.quiet(),
            PasteVerdict::Snapshot => Turn {
                sel: self,
                acts: seq![ActionView::ServeSnapshot(reply, self.snapshot->0)],
            },
            PasteVerdict::Live => Turn {
                sel: self,
                acts: seq![ActionView::ReadOffer(reply, self.offer->0.id)],
            },
            PasteVerdict::Refuse => Turn {
                sel: self,
                acts: seq![ActionView::Notify(transfer::answer(paste.req, None))],
            },
        }
    }

    /// A request for the selection's content.
    pub open spec fn after_request(self, env: Env, kind: SelKind, req: SelectionRequest) -> Turn {
        match self.request_verdict(env, req) {
            RequestVerdict::Refuse => Turn {
                sel: self,
                acts: seq![ActionView::Notify(transfer::answer(req, None))],
            },
            RequestVerdict::Values(type_, values) => Turn {
                sel: self,
                acts: seq![ActionView::ReplyAtoms(req, Self::reply_property(req), type_, values)],
            },
            RequestVerdict::Content(paste) => self.after_paste(env, kind, paste),
        }
    }

    /// The targets of a claim were interned: the payload is captured, and then
    /// the selection is taken. The order is the point: taking the selection
    /// may end the source.
    pub open spec fn after_interned(
        self,
        env: Env,
        kind: SelKind,
        epoch: nat,
        atoms: Seq<u32>,
    ) -> Turn {
        if epoch != self.broker.epoch {
            self.quiet()
        } else {
            Turn {
                sel: SelView { targets: interned(atoms, proxy_rows(self.proxied())), ..self },
                acts: (if env.running && self.offer is Some && self.proxied().len() > 0 {
                    seq![ActionView::Capture(kind, epoch, self.offer->0.id, self.proxied())]
                } else {
                    seq![]
                }).push(ActionView::ClaimX11(kind)),
            }
        }
    }

    /// The capture for a claim is on its way.
    pub open spec fn after_capture_started(self, epoch: nat) -> Self {
        SelView {
            capture: if epoch == self.broker.epoch {
                Some(epoch)
            } else {
                self.capture
            },
            ..self
        }
    }

    /// The X11 selection was asked for at a time of the server, and this is its
    /// owner now; `at` is what the clock shows.
    pub open spec fn after_claimed(self, env: Env, owner: u32, time: u32, at: Instant) -> Self {
        SelView {
            claim: if self.proxied().len() > 0 {
                Some(ClaimView { at, types: self.proxied() })
            } else {
                None
            },
            ..self.after_reclaimed(env, owner, time)
        }
    }

    /// The X11 selection was asked for again, and this is its owner now.
    pub open spec fn after_reclaimed(self, env: Env, owner: u32, time: u32) -> Self {
        SelView {
            owned_since: if owner == env.x11.win {
                Some(time)
            } else {
                None
            },
            ..self
        }
    }

    /// What replaying parked pastes asks for: those of an older claim could
    /// only be answered with stale bytes and are refused.
    pub open spec fn replayed(self, env: Env, kind: SelKind, parked: Seq<ParkedView>) -> Seq<
        ActionView,
    >
        decreases parked.len(),
    {
        if parked.len() == 0 {
            seq![]
        } else {
            let last = parked.last();
            self.replayed(env, kind, parked.drop_last()) + if last.epoch == self.broker.epoch {
                self.after_paste(env, kind, last.paste).acts
            } else {
                seq![ActionView::Notify(transfer::answer(last.paste.req, None))]
            }
        }
    }

    /// A snapshot came in: it is kept if it belongs to the present claim, and
    /// what was parked on its capture is answered either way.
    pub open spec fn after_snapshot(self, env: Env, kind: SelKind, snapshot: SnapshotView) -> Turn {
        let current = snapshot.epoch == self.broker.epoch;
        let kept = SelView {
            snapshot: if current {
                Some(snapshot)
            } else {
                self.snapshot
            },
            ..self
        };
        let locked = if current {
            seq![ActionView::LockSnapshot(snapshot)]
        } else {
            seq![]
        };
        if self.capture == Some(snapshot.epoch) {
            let landed = SelView { capture: None, parked: seq![], ..kept };
            Turn { sel: landed, acts: locked + landed.replayed(env, kind, self.parked) }
        } else {
            Turn { sel: kept, acts: locked }
        }
    }

    /// Who owned the X11 selection when the bridge started. Only a missing
    /// side is filled: with both owned nothing is touched. Another bridge's
    /// claim is not proxied.
    pub open spec fn after_startup(self, env: Env, kind: SelKind, owner: u32) -> Turn {
        if !(self.broker.state is Idle) {
            self.quiet()
        } else if owner == x11::NONE || owner == env.x11.win {
            if self.waits_to_fill(true) {
                self.after_gap(env, kind)
            } else {
                self.quiet()
            }
        } else if self.wayland_owned || env.wm_window == Some(owner) {
            SelView { fill: None, ..self }.quiet()
        } else {
            SelView { x11_owner: Some(owner), ..self }.dispatched(
                env,
                kind,
                EventView::X11Selection,
            )
        }
    }
}

/// A counter that may be absent.
pub open spec fn counted(n: Option<u64>) -> Option<nat> {
    match n {
        Some(n) => Some(n as nat),
        None => None,
    }
}

/// One selection: the broker and everything that a proxy claim carries.
pub struct SelCtx {
    broker: Broker,
    offer: Option<Offer>,
    source: Option<u64>,
    sources: u64,
    claim: Option<OwnX11Claim>,
    targets: Vec<Target>,
    plans: Vec<(String, String, Transform)>,
    pending_targets: Option<u64>,
    x11_owner: Option<u32>,
    wl_gen: u64,
    x11_gen: u64,
    fill: Option<PendingFill>,
    sensitive: bool,
    snapshot: Option<Arc<Snapshot>>,
    capture: Option<u64>,
    parked: Vec<ParkedPaste>,
    owned_since: Option<u32>,
    reclaimed: Option<u64>,
    wayland_owned: bool,
}

impl View for SelCtx {
    type V = SelView;

    closed spec fn view(&self) -> SelView {
        SelView {
            broker: self.broker@,
            offer: wayland::seen(self.offer),
            source: counted(self.source),
            sources: self.sources as nat,
            claim: match self.claim {
                Some(c) => Some(c@),
                None => None,
            },
            targets: table(self.targets@),
            plans: mime::rows(self.plans@),
            pending_targets: counted(self.pending_targets),
            x11_owner: self.x11_owner,
            wl_gen: self.wl_gen as nat,
            x11_gen: self.x11_gen as nat,
            fill: match self.fill {
                Some(f) => Some(f@),
                None => None,
            },
            sensitive: self.sensitive,
            snapshot: match self.snapshot {
                Some(s) => Some(s@),
                None => None,
            },
            capture: counted(self.capture),
            parked: held_back(self.parked@),
            owned_since: self.owned_since,
            reclaimed: counted(self.reclaimed),
            wayland_owned: self.wayland_owned,
        }
    }
}

impl Default for SelCtx {
    fn default() -> (r: Self)
        ensures
            r@ == SelView::initial(),
    {
        let r = SelCtx {
            broker: Broker::new(),
            offer: None,
            source: None,
            sources: 0,
            claim: None,
            targets: Vec::new(),
            plans: Vec::new(),
            pending_targets: None,
            x11_owner: None,
            wl_gen: 0,
            x11_gen: 0,
            fill: None,
            sensitive: false,
            snapshot: None,
            capture: None,
            parked: Vec::new(),
            owned_since: None,
            reclaimed: None,
            wayland_owned: false,
        };
        assert(r@ =~= SelView::initial());
        r
    }
}

/// The rows that proxy a Wayland owner's types.
fn rows_to_proxy(types: &[String]) -> (r: Vec<(String, String, Transform)>)
    ensures
        mime::rows(r@) == proxy_rows(text::texts(types@)),
{
    broadcast use mime::rows_push;

    let names = x11::intern_mimes(types);
    let mut extra = mime::synthesized_x11_targets(types);
    let ghost own = x11::to_intern(text::texts(types@));
    let ghost same = |t: Seq<char>| (t, t, Transform::Identity);
    let mut out: Vec<(String, String, Transform)> = Vec::new();
    assert(mime::rows(out@) =~= own.take(0).map_values(same));
    for i in 0..names.len()
        invariant
            own == text::texts(names@),
            same == (|t: Seq<char>| (t, t, Transform::Identity)),
            mime::rows(out@) == own.take(i as int).map_values(same),
    {
        out.push((names[i].clone(), names[i].clone(), Transform::Identity));
        assert(own.take(i + 1) =~= own.take(i as int).push(own[i as int]));
        assert(own.take(i + 1).map_values(same) =~= own.take(i as int).map_values(same).push(
            same(own[i as int]),
        ));
    }
    assert(own.take(own.len() as int) =~= own);
    let ghost before = out@;
    let ghost more = extra@;
    out.append(&mut extra);
    assert(mime::rows(out@) =~= mime::rows(before) + mime::rows(more));
    out
}

/// The names of the rows.
fn names_of_rows(rows: &Vec<(String, String, Transform)>) -> (r: Vec<String>)
    ensures
        text::texts(r@) == row_names(mime::rows(rows@)),
{
    let mut out: Vec<String> = Vec::new();
    for i in 0..rows.len()
        invariant
            out@.len() == i,
            forall|j: int| 0 <= j < i ==> (#[trigger] out@[j])@ == rows@[j].0@,
    {
        out.push(rows[i].0.clone());
    }
    assert(text::texts(out@) =~= row_names(mime::rows(rows@)));
    out
}

/// Puts a row into the table, in place of what it held for the atom.
fn put_target(targets: Vec<Target>, row: Target) -> (r: Vec<Target>)
    ensures
        table(r@) == with_target(table(targets@), (row.0, row.1@, row.2)),
{
    let ghost all = table(targets@);
    let ghost keep = other_than(row.0);
    let mut out: Vec<Target> = Vec::new();
    proof {
        reveal(Seq::filter);
        assert(table(out@) =~= all.take(0).filter(keep));
    }
    for i in 0..targets.len()
        invariant
            all == table(targets@),
            keep == other_than(row.0),
            table(out@) == all.take(i as int).filter(keep),
    {
        let ghost before = out@;
        proof {
            reveal(Seq::filter);
            assert(all.take(i + 1).drop_last() =~= all.take(i as int));
        }
        if targets[i].0 != row.0 {
            out.push((targets[i].0, targets[i].1.clone(), targets[i].2));
            assert(table(out@) =~= table(before).push(all[i as int]));
        }
    }
    assert(all.take(all.len() as int) =~= all);
    let ghost before = out@;
    out.push(row);
    assert(table(out@) =~= table(before).push((row.0, row.1@, row.2)));
    out
}

/// The table that atoms make of rows.
fn intern_rows(atoms: &[u32], rows: &Vec<(String, String, Transform)>) -> (r: Vec<Target>)
    ensures
        table(r@) == interned(atoms@, mime::rows(rows@)),
{
    let mut out: Vec<Target> = Vec::new();
    let ghost all = mime::rows(rows@);
    if atoms.len() < rows.len() {
        assert(table(out@) =~= interned(atoms@, all));
        return out;
    }
    assert(table(out@) =~= interned(atoms@.take(0), all.take(0)));
    for i in 0..rows.len()
        invariant
            rows@.len() <= atoms@.len(),
            all == mime::rows(rows@),
            table(out@) == interned(atoms@.take(i as int), all.take(i as int)),
    {
        out = put_target(out, (atoms[i], rows[i].1.clone(), rows[i].2));
        proof {
            assert(all.take(i + 1).drop_last() =~= all.take(i as int));
            assert(atoms@.take(i + 1).take(i as int) =~= atoms@.take(i as int));
        }
    }
    proof {
        assert(all.take(all.len() as int) =~= all);
        if rows@.len() > 0 {
            let n = rows@.len() as int;
            assert(atoms@.take(n).take(n - 1) =~= atoms@.take(n - 1));
        }
        assert(interned(atoms@.take(all.len() as int), all) =~= interned(atoms@, all));
    }
    out
}

/// Appends a refusal for a request.
fn refuse(req: &SelectionRequest, out: &mut Vec<Action>)
    ensures
        action::acts(final(out)@) == action::acts(old(out)@) + seq![
            ActionView::Notify(transfer::answer(*req, None)),
        ],
{
    broadcast use action::acts_push;

    out.push(Action::Notify(transfer::notify(req, None)));
}

impl SelCtx {
    /// The types of the Wayland owner that is proxied.
    fn proxied_types(&self) -> (r: Vec<String>)
        ensures
            text::texts(r@) == self@.proxied(),
    {
        match self.broker.state() {
            State::WaylandApp { mime_types } => text::copied(mime_types.as_slice()),
            _ => {
                let none: Vec<String> = Vec::new();
                assert(text::texts(none@) =~= seq![]);
                none
            },
        }
    }

    /// The plan for a type.
    fn plan_for(&self, mime: &str) -> (r: Option<(String, Transform)>)
        ensures
            transfer::plan_view(r) == plan_at(self@.plans, mime@),
    {
        let ghost all = self@.plans;
        let mut i: usize = self.plans.len();
        assert(all.take(all.len() as int) =~= all);
        while i > 0
            invariant
                i <= self.plans.len(),
                all == mime::rows(self.plans@),
                plan_at(all, mime@) == plan_at(all.take(i as int), mime@),
            decreases i,
        {
            i = i - 1;
            assert(all.take(i + 1).drop_last() =~= all.take(i as int));
            if text::same(self.plans[i].0.as_str(), mime) {
                return Some((self.plans[i].1.clone(), self.plans[i].2));
            }
        }
        None
    }

    /// What the table holds for an atom.
    fn target_for(&self, atom: u32) -> (r: Option<(String, Transform)>)
        ensures
            transfer::plan_view(r) == target_at(self@.targets, atom),
    {
        let ghost all = self@.targets;
        let mut i: usize = self.targets.len();
        assert(all.take(all.len() as int) =~= all);
        while i > 0
            invariant
                i <= self.targets.len(),
                all == table(self.targets@),
                target_at(all, atom) == target_at(all.take(i as int), atom),
            decreases i,
        {
            i = i - 1;
            assert(all.take(i + 1).drop_last() =~= all.take(i as int));
            if self.targets[i].0 == atom {
                return Some((self.targets[i].1.clone(), self.targets[i].2));
            }
        }
        None
    }

    /// The reads that fetch all these types from the X11 owner.
    fn reads_of(&self, env: &Env, kind: SelKind, types: &[String]) -> (r: Vec<X2wRequest>)
        ensures
            action::reads(r@) == self@.all_reads(*env, kind, text::texts(types@)),
    {
        let mut out: Vec<X2wRequest> = Vec::new();
        let ghost wanted = self@.all_reads(*env, kind, text::texts(types@));
        for i in 0..types.len()
            invariant
                wanted == self@.all_reads(*env, kind, text::texts(types@)),
                out@.len() == i,
                forall|j: int| 0 <= j < i ==> (#[trigger] out@[j])@ == wanted[j],
        {
            out.push(
                X2wRequest {
                    kind,
                    mime: types[i].clone(),
                    plan: self.plan_for(types[i].as_str()),
                    timeout: env.transfer_timeout,
                },
            );
            assert(out@[i as int]@ =~= wanted[i as int]);
        }
        assert(action::reads(out@) =~= wanted);
        out
    }

    /// Refuses everything parked: what it waited for is gone.
    fn discard_parked(&mut self, out: &mut Vec<Action>)
        ensures
            final(self)@ == (SelView { parked: seq![], ..old(self)@ }),
            action::acts(final(out)@) == action::acts(old(out)@) + refusals(old(self)@.parked),
    {
        let ghost before = action::acts(out@);
        let ghost parked = self@.parked;
        let ghost sel = self@;
        assert(before + refusals(parked.take(0)) =~= before);
        for i in 0..self.parked.len()
            invariant
                self@ == sel,
                parked == held_back(self.parked@),
                action::acts(out@) == before + refusals(parked.take(i as int)),
        {
            refuse(&self.parked[i].paste.req, out);
            proof {
                assert(parked.take(i + 1) =~= parked.take(i as int).push(parked[i as int]));
                assert(refusals(parked.take(i + 1)) =~= refusals(parked.take(i as int)).push(
                    ActionView::Notify(transfer::answer(parked[i as int].paste.req, None)),
                ));
                assert(action::acts(out@) =~= before + refusals(parked.take(i + 1)));
            }
        }
        assert(parked.take(parked.len() as int) =~= parked);
        self.parked = Vec::new();
        assert(self@ =~= (SelView { parked: seq![], ..sel }));
    }

    /// Runs a command of the broker.
    fn run_command(&mut self, env: &Env, kind: SelKind, command: Command, out: &mut Vec<Action>)
        requires
            old(self)@.sources < u64::MAX,
        ensures
            final(self)@ == old(self)@.run(*env, kind, command@).sel,
            action::acts(final(out)@) == action::acts(old(out)@) + old(self)@.run(
                *env,
                kind,
                command@,
            ).acts,
    {
        broadcast use action::acts_push;

        let ghost before = action::acts(out@);
        let ghost sel = self@;
        let ghost turn = sel.run(*env, kind, command@);
        match command {
            Command::ClaimX11 { epoch } => {
                let types = self.proxied_types();
                let rows = rows_to_proxy(types.as_slice());
                let names = names_of_rows(&rows);
                out.push(Action::InternTargets { kind, epoch, names });
            },
            Command::ReleaseX11 => {
                self.targets = Vec::new();
                self.claim = None;
                self.capture = None;
                assert(self@ =~= (SelView { targets: seq![], claim: None, capture: None, ..sel }));
                self.discard_parked(out);
                if let Some(time) = self.owned_since {
                    out.push(Action::ReleaseX11 { kind, time });
                }
                self.owned_since = None;
                assert(self@ =~= turn.sel);
            },
            Command::FetchX11Targets { epoch } => {
                self.pending_targets = Some(epoch);
                out.push(Action::FetchTargets(kind));
            },
            Command::ClaimWayland { epoch, mime_types } => {
                if let Some(source) = self.source {
                    out.push(Action::DestroySource { kind, source });
                }
                let reads = self.reads_of(env, kind, mime_types.as_slice());
                self.sources = self.sources + 1;
                self.source = Some(self.sources);
                out.push(Action::ClaimWayland { kind, source: self.sources, mime_types });
                if env.sync_mode == SyncMode::Eager && env.running {
                    out.push(Action::EagerFetch { kind, epoch, reads });
                }
            },
            Command::ReleaseWayland => {
                if let Some(source) = self.source {
                    out.push(Action::ReleaseWayland { kind, source });
                }
                self.source = None;
            },
        }
        assert(self@ =~= turn.sel);
        assert(action::acts(out@) =~= before + turn.acts);
    }

    /// Hands an event to the broker and runs the commands it asks for.
    fn dispatch(&mut self, env: &Env, kind: SelKind, event: Event, out: &mut Vec<Action>)
        requires
            old(self)@.broker.epoch < u64::MAX,
            old(self)@.sources < u64::MAX,
        ensures
            final(self)@ == old(self)@.dispatched(*env, kind, event@).sel,
            action::acts(final(out)@) == action::acts(old(out)@) + old(self)@.dispatched(
                *env,
                kind,
                event@,
            ).acts,
    {
        let ghost before = action::acts(out@);
        let ghost sel = self@;
        let ghost turn = sel.dispatched(*env, kind, event@);
        reveal(SelView::dispatched);
        let epoch = self.broker.epoch();
        let ghost asked = sel.broker.asks(event@);
        let mut commands = self.broker.handle(event);
        let ghost moved = sel.moved(self.broker@);
        if self.broker.epoch() != epoch {
            self.snapshot = None;
            self.capture = None;
            assert(self@ =~= (SelView {
                broker: self.broker@,
                snapshot: None,
                capture: None,
                ..sel
            }));
            self.discard_parked(out);
        }
        assert(self@ =~= moved.sel);
        assert(action::acts(out@) =~= before + moved.acts);
        let ghost list = commands@;
        if let Some(command) = commands.pop() {
            assert(broker::commands(list)[list.len() - 1] == command@);
            assert(asked.len() == 1 && command@ == asked[0]);
            self.run_command(env, kind, command, out);
            assert(action::acts(out@) =~= before + turn.acts);
        } else {
            assert(asked.len() == 0);
        }
    }
}

impl SelCtx {
    /// True when all counters can still be advanced.
    pub fn can_advance(&self) -> (r: bool)
        ensures
            r == self@.has_room(),
    {
        self.broker.epoch() < u64::MAX && self.wl_gen < u64::MAX && self.x11_gen < u64::MAX
            && self.sources < u64::MAX
    }

    /// True while nothing is proxied.
    pub fn is_idle(&self) -> (r: bool)
        ensures
            r == (self@.broker.state is Idle),
    {
        match self.broker.state() {
            State::Idle => true,
            _ => false,
        }
    }

    /// True while the bridge's own Wayland data source is alive.
    pub fn has_source(&self) -> (r: bool)
        ensures
            r == (self@.source is Some),
    {
        self.source.is_some()
    }

    /// True when the bridge's own X11 claim was made within the echo window.
    /// That is the clock's to say.
    pub(crate) fn claim_is_recent(&self) -> (r: bool)
        ensures
            self@.claim_judged_recent(r),
    {
        match &self.claim {
            Some(claim) => claim.is_recent(),
            None => false,
        }
    }

    /// The source of a proxied side went away: its content is still there.
    pub fn survives_source_exit(&self, env: &Env, x11_side: bool) -> (r: bool)
        ensures
            r == self@.survives(*env, x11_side),
    {
        match self.broker.state() {
            State::WaylandApp { .. } => !x11_side && (self.capture.is_some()
                || self.snapshot.is_some()),
            State::X11App { .. } => x11_side && env.sync_mode == SyncMode::Eager
                && self.snapshot.is_some(),
            State::Idle => false,
        }
    }

    fn waits_to_fill(&self, x11_side: bool) -> (r: bool)
        ensures
            r == self@.waits_to_fill(x11_side),
    {
        match &self.fill {
            Some(f) => f.fill_x11 == x11_side,
            None => false,
        }
    }

    /// The Wayland selection changed: an offer took it, or it was cleared.
    /// `recent` says whether the bridge's own X11 claim was made within the
    /// echo window.
    #[verifier::rlimit(40)]
    pub fn process_wayland_selection(
        &mut self,
        env: &Env,
        kind: SelKind,
        offer: Option<Offer>,
        recent: bool,
        out: &mut Vec<Action>,
    )
        requires
            old(self)@.has_room(),
        ensures
            final(self)@ == old(self)@.after_wayland_selection(
                *env,
                kind,
                wayland::seen(offer),
                recent,
            ).sel,
            action::acts(final(out)@) == action::acts(old(out)@) + old(
                self,
            )@.after_wayland_selection(
                *env,
                kind,
                wayland::seen(offer),
                recent,
            ).acts,
    {
        broadcast use action::acts_push;

        let ghost before = action::acts(out@);
        let ghost sel = self@;
        let ghost seen = wayland::seen(offer);
        let ghost turn = sel.after_wayland_selection(*env, kind, seen, recent);
        if let Some(o) = &offer {
            let echo = match &self.claim {
                Some(claim) => claim.is_echo_at(o.mime_types.as_slice(), recent),
                None => false,
            };
            if echo {
                out.push(Action::DestroyOffer(o.id));
                assert(action::acts(out@) =~= before + turn.acts);
                return;
            }
        }
        if let Some(old_offer) = &self.offer {
            out.push(Action::DestroyOffer(old_offer.id));
        }
        self.offer = None;
        self.wl_gen = self.wl_gen + 1;
        self.wayland_owned = offer.is_some();
        let ghost changed = sel.wayland_changed(seen is Some);
        assert(self@ =~= changed.sel);
        assert(action::acts(out@) =~= before + changed.acts);
        match offer {
            Some(o) => {
                if mime::is_x11_mirror(o.mime_types.as_slice()) {
                    out.push(Action::DestroyOffer(o.id));
                    assert(action::acts(out@) =~= before + turn.acts);
                    return;
                }
                self.sensitive = mime::is_sensitive(o.mime_types.as_slice());
                if self.sensitive && env.skip_sensitive {
                    out.push(Action::DestroyOffer(o.id));
                    assert(self@ =~= (SelView { sensitive: true, ..changed.sel }));
                    self.dispatch(env, kind, Event::WaylandCleared, out);
                    assert(action::acts(out@) =~= before + turn.acts);
                    return;
                }
                let bridgeable = mime::content_types(o.mime_types.as_slice());
                self.offer = Some(o);
                assert(self@ =~= changed.sel.offered(seen->0));
                if !env.aggressive_claims && self.waits_to_fill(false) {
                    self.fill = None;
                    assert(self@ =~= turn.sel);
                    return;
                }
                if bridgeable.len() == 0 {
                    self.dispatch(env, kind, Event::WaylandCleared, out);
                    assert(action::acts(out@) =~= before + turn.acts);
                } else if env.aggressive_claims && env.running {
                    self.x11_owner = None;
                    assert(self@ =~= (SelView {
                        x11_owner: None,
                        ..changed.sel.offered(seen->0)
                    }));
                    self.dispatch(
                        env,
                        kind,
                        Event::WaylandSelection { mime_types: bridgeable },
                        out,
                    );
                    assert(action::acts(out@) =~= before + turn.acts);
                } else {
                    self.fill = Some(
                        PendingFill {
                            fill_x11: true,
                            wl_gen: self.wl_gen,
                            x11_gen: self.x11_gen,
                            mime_types: bridgeable,
                            owner: None,
                        },
                    );
                    if env.running {
                        out.push(Action::ArmGapTimer(kind));
                    }
                    assert(self@ =~= turn.sel);
                    assert(action::acts(out@) =~= before + turn.acts);
                }
            },
            None => {
                if !self.survives_source_exit(env, false) {
                    self.sensitive = false;
                    assert(self@ =~= (SelView { sensitive: false, ..changed.sel }));
                    self.dispatch(env, kind, Event::WaylandCleared, out);
                    assert(action::acts(out@) =~= before + turn.acts);
                }
            },
        }
    }

    /// The compositor cancelled a data source of the bridge: somebody else
    /// claimed, or the bridge replaced its own claim.
    pub fn source_cancelled(&mut self, kind: SelKind, source: u64, out: &mut Vec<Action>)
        ensures
            final(self)@ == old(self)@.after_source_cancelled(kind, source as nat).sel,
            action::acts(final(out)@) == action::acts(old(out)@) + old(
                self,
            )@.after_source_cancelled(kind, source as nat).acts,
    {
        broadcast use action::acts_push;

        let ghost before = action::acts(out@);
        let ghost turn = self@.after_source_cancelled(kind, source as nat);
        out.push(Action::DestroySource { kind, source });
        if let Some(own) = self.source {
            if own == source {
                self.source = None;
            }
        }
        assert(self@ =~= turn.sel);
        assert(action::acts(out@) =~= before + turn.acts);
    }

    /// The gap window passed.
    pub fn fire_gap_fill(&mut self, env: &Env, kind: SelKind, out: &mut Vec<Action>)
        requires
            old(self)@.has_room(),
        ensures
            final(self)@ == old(self)@.after_gap(*env, kind).sel,
            action::acts(final(out)@) == action::acts(old(out)@) + old(self)@.after_gap(
                *env,
                kind,
            ).acts,
    {
        let ghost before = action::acts(out@);
        let ghost sel = self@;
        let ghost turn = sel.after_gap(*env, kind);
        let fill = match self.fill.take() {
            Some(f) => f,
            None => {
                assert(self@ =~= turn.sel);
                assert(action::acts(out@) =~= before + turn.acts);
                return;
            },
        };
        let ghost unset = SelView { fill: None, ..sel };
        assert(self@ =~= unset);
        if self.wl_gen != fill.wl_gen || self.x11_gen != fill.x11_gen {
            assert(action::acts(out@) =~= before + turn.acts);
            return;
        }
        if fill.fill_x11 {
            self.x11_owner = None;
            assert(self@ =~= (SelView { x11_owner: None, ..unset }));
            self.dispatch(
                env,
                kind,
                Event::WaylandSelection { mime_types: fill.mime_types },
                out,
            );
        } else {
            self.x11_owner = fill.owner;
            assert(self@ =~= (SelView { x11_owner: sel.fill->0.owner, ..unset }));
            self.dispatch(env, kind, Event::X11Selection, out);
        }
    }

    /// The X11 selection changed hands, and not to the bridge.
    pub fn x11_owner_changed(
        &mut self,
        env: &Env,
        kind: SelKind,
        owner: u32,
        has_owner: bool,
        out: &mut Vec<Action>,
    )
        requires
            old(self)@.has_room(),
        ensures
            final(self)@ == old(self)@.after_x11_owner(*env, kind, owner, has_owner).sel,
            action::acts(final(out)@) == action::acts(old(out)@) + old(self)@.after_x11_owner(
                *env,
                kind,
                owner,
                has_owner,
            ).acts,
    {
        broadcast use action::acts_push;

        let ghost before = action::acts(out@);
        let ghost sel = self@;
        let ghost turn = sel.after_x11_owner(*env, kind, owner, has_owner);
        self.x11_gen = self.x11_gen + 1;
        let ghost counted = SelView { x11_gen: sel.x11_gen + 1, ..sel };
        assert(self@ =~= counted);
        if !has_owner {
            if !self.survives_source_exit(env, true) {
                self.x11_owner = None;
                assert(self@ =~= (SelView { x11_owner: None, ..counted }));
                self.dispatch(env, kind, Event::X11Cleared, out);
            }
            assert(action::acts(out@) =~= before + turn.acts);
            return;
        }
        let from_bridge = match env.wm_window {
            Some(wm) => wm == owner,
            None => false,
        };
        if from_bridge {
            let epoch = self.broker.epoch();
            let proxying = match self.broker.state() {
                State::WaylandApp { .. } => true,
                _ => false,
            };
            let done = match self.reclaimed {
                Some(e) => e == epoch,
                None => false,
            };
            if env.aggressive_claims && proxying && !done {
                self.reclaimed = Some(epoch);
                out.push(Action::ReclaimX11(kind));
            }
            assert(self@ =~= turn.sel);
            assert(action::acts(out@) =~= before + turn.acts);
            return;
        }
        if !env.aggressive_claims && self.waits_to_fill(true) {
            self.fill = None;
            assert(self@ =~= turn.sel);
            assert(action::acts(out@) =~= before + turn.acts);
            return;
        }
        if env.aggressive_claims || !env.running {
            self.x11_owner = Some(owner);
            assert(self@ =~= (SelView { x11_owner: Some(owner), ..counted }));
            self.dispatch(env, kind, Event::X11Selection, out);
        } else {
            self.fill = Some(
                PendingFill {
                    fill_x11: false,
                    wl_gen: self.wl_gen,
                    x11_gen: self.x11_gen,
                    mime_types: Vec::new(),
                    owner: Some(owner),
                },
            );
            assert(self.fill->0@ =~= counted.fill_for_wayland(owner));
            out.push(Action::ArmGapTimer(kind));
            assert(self@ =~= turn.sel);
            assert(action::acts(out@) =~= before + turn.acts);
        }
    }

    /// A debounced PRIMARY change on the X11 side.
    pub fn x11_primary_changed(
        &mut self,
        env: &Env,
        kind: SelKind,
        has_owner: bool,
        out: &mut Vec<Action>,
    )
        requires
            old(self)@.has_room(),
        ensures
            final(self)@ == old(self)@.after_x11_primary(*env, kind, has_owner).sel,
            action::acts(final(out)@) == action::acts(old(out)@) + old(self)@.after_x11_primary(
                *env,
                kind,
                has_owner,
            ).acts,
    {
        let ghost before = action::acts(out@);
        if has_owner {
            self.dispatch(env, kind, Event::X11Selection, out);
        } else if self.survives_source_exit(env, true) {
            assert(before + seq![] =~= before);
        } else {
            self.dispatch(env, kind, Event::X11Cleared, out);
        }
    }

    /// A real X11 client took the X11 selection from the bridge.
    pub fn x11_lost(&mut self, env: &Env, kind: SelKind, out: &mut Vec<Action>)
        requires
            old(self)@.has_room(),
        ensures
            final(self)@ == old(self)@.after_lost(*env, kind).sel,
            action::acts(final(out)@) == action::acts(old(out)@) + old(self)@.after_lost(
                *env,
                kind,
            ).acts,
    {
        let ghost sel = self@;
        self.owned_since = None;
        self.claim = None;
        assert(self@ =~= (SelView { owned_since: None, claim: None, ..sel }));
        self.dispatch(env, kind, Event::X11Lost, out);
    }

    /// The X11 owner answered the request for its targets, through a property
    /// or with a refusal.
    pub fn on_targets_reply(
        &mut self,
        env: &Env,
        kind: SelKind,
        property: u32,
        out: &mut Vec<Action>,
    )
        requires
            old(self)@.has_room(),
        ensures
            final(self)@ == old(self)@.after_targets_reply(*env, kind, property).sel,
            action::acts(final(out)@) == action::acts(old(out)@) + old(self)@.after_targets_reply(
                *env,
                kind,
                property,
            ).acts,
    {
        broadcast use action::acts_push;

        let ghost before = action::acts(out@);
        let ghost sel = self@;
        let ghost turn = sel.after_targets_reply(*env, kind, property);
        let epoch = match self.pending_targets {
            Some(epoch) => epoch,
            None => {
                assert(action::acts(out@) =~= before + turn.acts);
                return;
            },
        };
        self.pending_targets = None;
        assert(self@ =~= (SelView { pending_targets: None, ..sel }));
        if property == x11::NONE {
            let none: Vec<String> = Vec::new();
            assert(text::texts(none@) =~= seq![]);
            self.dispatch(env, kind, Event::X11Targets { epoch, mime_types: none }, out);
        } else {
            out.push(Action::ReadTargets { kind, epoch });
            assert(action::acts(out@) =~= before + turn.acts);
        }
    }

    /// The names of the X11 owner's targets were read, or could not be.
    pub fn on_targets_read(
        &mut self,
        env: &Env,
        kind: SelKind,
        epoch: u64,
        names: Option<Vec<String>>,
        out: &mut Vec<Action>,
    )
        requires
            old(self)@.has_room(),
        ensures
            final(self)@ == old(self)@.after_targets_read(
                *env,
                kind,
                epoch as nat,
                text::optional_texts(names),
            ).sel,
            action::acts(final(out)@) == action::acts(old(out)@) + old(self)@.after_targets_read(
                *env,
                kind,
                epoch as nat,
                text::optional_texts(names),
            ).acts,
    {
        let ghost sel = self@;
        let none: Vec<String> = Vec::new();
        assert(text::texts(none@) =~= seq![]);
        let list = match names {
            Some(list) => list,
            None => {
                self.dispatch(env, kind, Event::X11Targets { epoch, mime_types: none }, out);
                return;
            },
        };
        self.sensitive = mime::is_sensitive(list.as_slice());
        let ghost marked = SelView { sensitive: self.sensitive, ..sel };
        assert(self@ =~= marked);
        if self.sensitive && env.skip_sensitive {
            self.dispatch(env, kind, Event::X11Targets { epoch, mime_types: none }, out);
            return;
        }
        let (advertised, plans) = mime::x2w_translate(list.as_slice());
        self.plans = plans;
        assert(self@ =~= (SelView { plans: mime::read_plans(text::texts(list@)), ..marked }));
        self.dispatch(env, kind, Event::X11Targets { epoch, mime_types: advertised }, out);
    }
}

/// A paste as the reply that is owed for it.
fn reply_to(kind: SelKind, paste: Paste, timeout: Option<u64>) -> (r: PasteReply)
    ensures
        r@ == (ReplyView { kind, paste: paste@, timeout }),
{
    PasteReply {
        kind,
        mime: paste.mime,
        req: paste.req,
        property: paste.property,
        reply_type: paste.reply_type,
        conversion: paste.conversion,
        transform: paste.transform,
        timeout,
    }
}

/// What a request comes to.
enum Decision {
    Refuse,
    Values(u32, Vec<u32>),
    Content(Paste),
}

impl Decision {
    spec fn verdict(self) -> RequestVerdict {
        match self {
            Decision::Refuse => RequestVerdict::Refuse,
            Decision::Values(type_, values) => RequestVerdict::Values(type_, values@),
            Decision::Content(paste) => RequestVerdict::Content(paste@),
        }
    }
}

impl SelCtx {
    /// The target atoms to report.
    fn target_list(&self, env: &Env, has_text: bool) -> (r: Vec<u32>)
        ensures
            r@ == seq![env.x11.atoms.targets, env.x11.atoms.timestamp] + (if has_text {
                seq![env.x11.atoms.utf8_string, env.x11.atoms.text, x11::STRING]
            } else {
                seq![]
            }) + self@.targets.map_values(|t: (u32, Seq<char>, Transform)| t.0),
    {
        let atoms = &env.x11.atoms;
        let mut out: Vec<u32> = Vec::new();
        out.push(atoms.targets);
        out.push(atoms.timestamp);
        if has_text {
            out.push(atoms.utf8_string);
            out.push(atoms.text);
            out.push(x11::STRING);
        }
        let ghost head = out@;
        let ghost all = self@.targets.map_values(|t: (u32, Seq<char>, Transform)| t.0);
        assert(head + all.take(0) =~= head);
        for i in 0..self.targets.len()
            invariant
                all == self@.targets.map_values(|t: (u32, Seq<char>, Transform)| t.0),
                out@ == head + all.take(i as int),
        {
            out.push(self.targets[i].0);
            assert(all.take(i + 1) =~= all.take(i as int).push(all[i as int]));
            assert(out@ =~= head + all.take(i + 1));
        }
        assert(all.take(all.len() as int) =~= all);
        assert(out@ =~= seq![env.x11.atoms.targets, env.x11.atoms.timestamp] + (if has_text {
            seq![env.x11.atoms.utf8_string, env.x11.atoms.text, x11::STRING]
        } else {
            seq![]
        }) + all);
        out
    }

    /// The type to read for a request for text.
    fn text_to_read(&self) -> (r: Option<&'static str>)
        ensures
            r matches Some(t) ==> self@.text_source() == Some(t@),
            r is None ==> self@.text_source() is None,
    {
        match &self.offer {
            Some(o) => mime::pick_text(o.mime_types.as_slice()),
            None => {
                let types = self.proxied_types();
                mime::pick_text(types.as_slice())
            },
        }
    }

    /// Decides how a request is answered.
    fn decide(&self, env: &Env, req: &SelectionRequest) -> (r: Decision)
        ensures
            r.verdict() == self@.request_verdict(*env, *req),
    {
        let atoms = &env.x11.atoms;
        let property = if req.property == x11::NONE {
            req.target
        } else {
            req.property
        };
        let owned_since = match self.owned_since {
            Some(time) => time,
            None => {
                return Decision::Refuse;
            },
        };
        let types = self.proxied_types();
        let has_text = mime::pick_text(types.as_slice()).is_some();
        if req.target == atoms.targets {
            return Decision::Values(x11::ATOM, self.target_list(env, has_text));
        }
        if req.target == atoms.timestamp {
            let mut values: Vec<u32> = Vec::new();
            values.push(owned_since);
            assert(values@ =~= seq![owned_since]);
            return Decision::Values(x11::INTEGER, values);
        }
        if req.target == atoms.multiple {
            return Decision::Refuse;
        }
        if has_text && (req.target == atoms.utf8_string || req.target == atoms.text || req.target
            == x11::STRING) {
            let legacy = req.target == x11::STRING;
            return match self.text_to_read() {
                None => Decision::Refuse,
                Some(mime) => Decision::Content(
                    Paste {
                        req: *req,
                        property,
                        mime: mime.to_owned(),
                        reply_type: if legacy {
                            x11::STRING
                        } else {
                            atoms.utf8_string
                        },
                        conversion: if legacy {
                            Conv::Utf8ToLatin1
                        } else {
                            Conv::Verbatim
                        },
                        transform: Transform::Identity,
                    },
                ),
            };
        }
        match self.target_for(req.target) {
            Some((mime, transform)) => Decision::Content(
                Paste {
                    req: *req,
                    property,
                    mime,
                    reply_type: req.target,
                    conversion: Conv::Verbatim,
                    transform,
                },
            ),
            None => Decision::Refuse,
        }
    }

    /// Answers a paste of known type.
    pub fn start_paste(&mut self, env: &Env, kind: SelKind, paste: Paste, out: &mut Vec<Action>)
        ensures
            final(self)@ == old(self)@.after_paste(*env, kind, paste@).sel,
            action::acts(final(out)@) == action::acts(old(out)@) + old(self)@.after_paste(
                *env,
                kind,
                paste@,
            ).acts,
    {
        broadcast use action::acts_push;

        let ghost before = action::acts(out@);
        let ghost sel = self@;
        let ghost turn = sel.after_paste(*env, kind, paste@);
        let epoch = self.broker.epoch();
        let in_flight = match self.capture {
            Some(e) => e == epoch,
            None => false,
        };
        if in_flight {
            let ghost parked = self.parked@;
            let held = ParkedPaste { epoch, paste };
            assert(held_back(parked.push(held)) =~= held_back(parked).push(held@));
            self.parked.push(held);
            assert(self@ =~= turn.sel);
            assert(action::acts(out@) =~= before + turn.acts);
            return;
        }
        if let Some(snapshot) = &self.snapshot {
            if snapshot.has(paste.mime.as_str()) {
                let snapshot = snapshot.clone();
                let reply = reply_to(kind, paste, env.transfer_timeout);
                out.push(Action::ServeSnapshot { reply, snapshot });
                assert(action::acts(out@) =~= before + turn.acts);
                return;
            }
        }
        if let Some(offer) = &self.offer {
            if text::contains(offer.mime_types.as_slice(), paste.mime.as_str()) {
                let id = offer.id;
                let reply = reply_to(kind, paste, env.transfer_timeout);
                out.push(Action::ReadOffer { reply, offer: id });
                assert(action::acts(out@) =~= before + turn.acts);
                return;
            }
        }
        refuse(&paste.req, out);
        assert(action::acts(out@) =~= before + turn.acts);
    }

    /// Answers a request for the selection's content.
    pub fn on_selection_request(
        &mut self,
        env: &Env,
        kind: SelKind,
        req: &SelectionRequest,
        out: &mut Vec<Action>,
    )
        ensures
            final(self)@ == old(self)@.after_request(*env, kind, *req).sel,
            action::acts(final(out)@) == action::acts(old(out)@) + old(self)@.after_request(
                *env,
                kind,
                *req,
            ).acts,
    {
        broadcast use action::acts_push;

        let ghost before = action::acts(out@);
        let ghost turn = self@.after_request(*env, kind, *req);
        match self.decide(env, req) {
            Decision::Refuse => {
                refuse(req, out);
            },
            Decision::Values(type_, values) => {
                let property = if req.property == x11::NONE {
                    req.target
                } else {
                    req.property
                };
                out.push(Action::ReplyAtoms { req: *req, property, type_, values });
                assert(action::acts(out@) =~= before + turn.acts);
            },
            Decision::Content(paste) => {
                self.start_paste(env, kind, paste, out);
            },
        }
    }

    /// The targets of a claim were interned.
    pub fn on_targets_interned(
        &mut self,
        env: &Env,
        kind: SelKind,
        epoch: u64,
        atoms: &[u32],
        out: &mut Vec<Action>,
    )
        ensures
            final(self)@ == old(self)@.after_interned(*env, kind, epoch as nat, atoms@).sel,
            action::acts(final(out)@) == action::acts(old(out)@) + old(self)@.after_interned(
                *env,
                kind,
                epoch as nat,
                atoms@,
            ).acts,
    {
        broadcast use action::acts_push;

        let ghost before = action::acts(out@);
        let ghost sel = self@;
        let ghost turn = sel.after_interned(*env, kind, epoch as nat, atoms@);
        if epoch != self.broker.epoch() {
            assert(action::acts(out@) =~= before + turn.acts);
            return;
        }
        let types = self.proxied_types();
        let rows = rows_to_proxy(types.as_slice());
        self.targets = intern_rows(atoms, &rows);
        assert(self@ =~= turn.sel);
        if env.running && types.len() > 0 {
            if let Some(offer) = &self.offer {
                out.push(Action::Capture { kind, epoch, offer: offer.id, mime_types: types });
            }
        }
        out.push(Action::ClaimX11(kind));
        assert(action::acts(out@) =~= before + turn.acts);
    }

    /// The capture for a claim is on its way.
    pub fn on_capture_started(&mut self, epoch: u64)
        ensures
            final(self)@ == old(self)@.after_capture_started(epoch as nat),
    {
        let ghost turn = self@.after_capture_started(epoch as nat);
        if epoch == self.broker.epoch() {
            self.capture = Some(epoch);
        }
        assert(self@ =~= turn);
    }

    /// The X11 selection was asked for at a time of the server, and this is its
    /// owner now. The claim is made at the time that the clock shows.
    pub fn on_x11_claimed(&mut self, env: &Env, owner: u32, time: u32)
        ensures
            exists|at: Instant| #[trigger]
                clock_shows(at) && final(self)@ == old(self)@.after_claimed(*env, owner, time, at),
    {
        let at = now();
        let ghost next = self@.after_claimed(*env, owner, time, at);
        let types = self.proxied_types();
        self.on_x11_reclaimed(env, owner, time);
        self.claim = if types.len() > 0 {
            Some(OwnX11Claim { at, mime_types: types })
        } else {
            None
        };
        assert(self@ =~= next);
        assert(clock_shows(at));
    }

    /// The X11 selection was asked for again, and this is its owner now.
    pub fn on_x11_reclaimed(&mut self, env: &Env, owner: u32, time: u32)
        ensures
            final(self)@ == old(self)@.after_reclaimed(*env, owner, time),
    {
        let ghost next = self@.after_reclaimed(*env, owner, time);
        self.owned_since = if owner == env.x11.win {
            Some(time)
        } else {
            None
        };
        assert(self@ =~= next);
    }

    /// Answers the pastes that were held for a capture that has now landed.
    fn flush_parked(
        &mut self,
        env: &Env,
        kind: SelKind,
        parked: Vec<ParkedPaste>,
        out: &mut Vec<Action>,
    )
        requires
            old(self)@.capture is None,
        ensures
            final(self)@ == old(self)@,
            action::acts(final(out)@) == action::acts(old(out)@) + old(self)@.replayed(
                *env,
                kind,
                held_back(parked@),
            ),
    {
        let ghost before = action::acts(out@);
        let ghost sel = self@;
        let ghost all = held_back(parked@);
        let epoch = self.broker.epoch();
        assert(before + sel.replayed(*env, kind, all.take(0)) =~= before);
        for p in pastes: parked
            invariant
                sel.capture is None,
                self@ == sel,
                epoch == sel.broker.epoch,
                pastes.seq() == parked@,
                all == held_back(parked@),
                action::acts(out@) == before + sel.replayed(
                    *env,
                    kind,
                    all.take(pastes.index() as int),
                ),
        {
            let ghost n = pastes.index() as int;
            assert(p@ == all[n]);
            assert(all.take(n + 1).drop_last() =~= all.take(n));
            if p.epoch == epoch {
                self.start_paste(env, kind, p.paste, out);
            } else {
                refuse(&p.paste.req, out);
            }
            assert(action::acts(out@) =~= before + sel.replayed(*env, kind, all.take(n + 1)));
        }
        assert(all.take(all.len() as int) =~= all);
    }

    /// A snapshot came in.
    pub fn on_snapshot(
        &mut self,
        env: &Env,
        kind: SelKind,
        snapshot: Snapshot,
        out: &mut Vec<Action>,
    )
        ensures
            final(self)@ == old(self)@.after_snapshot(*env, kind, snapshot@).sel,
            action::acts(final(out)@) == action::acts(old(out)@) + old(self)@.after_snapshot(
                *env,
                kind,
                snapshot@,
            ).acts,
    {
        broadcast use action::acts_push;

        let ghost before = action::acts(out@);
        let ghost sel = self@;
        let ghost turn = sel.after_snapshot(*env, kind, snapshot@);
        let epoch = snapshot.epoch();
        if epoch == self.broker.epoch() {
            let shared = Arc::new(snapshot);
            self.snapshot = Some(shared.clone());
            out.push(Action::LockSnapshot(shared));
        }
        let landed = match self.capture {
            Some(e) => e == epoch,
            None => false,
        };
        if landed {
            let mut parked: Vec<ParkedPaste> = Vec::new();
            std::mem::swap(&mut parked, &mut self.parked);
            self.capture = None;
            assert(self@ =~= turn.sel);
            self.flush_parked(env, kind, parked, out);
            assert(action::acts(out@) =~= before + turn.acts);
        } else {
            assert(self@ =~= turn.sel);
            assert(action::acts(out@) =~= before + turn.acts);
        }
    }

    /// Who owned the X11 selection when the bridge started.
    pub fn on_startup_owner(
        &mut self,
        env: &Env,
        kind: SelKind,
        owner: u32,
        out: &mut Vec<Action>,
    )
        requires
            old(self)@.has_room(),
        ensures
            final(self)@ == old(self)@.after_startup(*env, kind, owner).sel,
            action::acts(final(out)@) == action::acts(old(out)@) + old(self)@.after_startup(
                *env,
                kind,
                owner,
            ).acts,
    {
        let ghost before = action::acts(out@);
        let ghost sel = self@;
        assert(before + Seq::<ActionView>::empty() =~= before);
        if !self.is_idle() {
            return;
        }
        if owner == x11::NONE || owner == env.x11.win {
            if self.waits_to_fill(true) {
                self.fire_gap_fill(env, kind, out);
            }
            return;
        }
        let from_bridge = match env.wm_window {
            Some(wm) => wm == owner,
            None => false,
        };
        if self.wayland_owned || from_bridge {
            self.fill = None;
            assert(self@ =~= (SelView { fill: None, ..sel }));
            return;
        }
        self.x11_owner = Some(owner);
        assert(self@ =~= (SelView { x11_owner: Some(owner), ..sel }));
        self.dispatch(env, kind, Event::X11Selection, out);
    }
}

/// Where a Wayland paste gets its bytes.
pub enum SendPlan {
    /// Nowhere: the data source is not the present one.
    Superseded,
    /// From memory.
    Snapshot(Arc<Snapshot>),
    /// From the X11 owner.
    Read(X2wRequest),
}

/// The plan, with names as texts.
#[verifier::ext_equal]
pub enum SendView {
    Superseded,
    Snapshot(SnapshotView),
    Read(ReadView),
}

impl View for SendPlan {
    type V = SendView;

    open spec fn view(&self) -> SendView {
        match *self {
            SendPlan::Superseded => SendView::Superseded,
            SendPlan::Snapshot(snapshot) => SendView::Snapshot(snapshot@),
            SendPlan::Read(request) => SendView::Read(request@),
        }
    }
}

impl SelView {
    /// Where a paste from a data source of the bridge gets its bytes: from the
    /// snapshot where it holds the type, or else from the X11 owner.
    pub open spec fn send_plan(
        self,
        env: Env,
        kind: SelKind,
        source: nat,
        mime: Seq<char>,
    ) -> SendView {
        if self.source != Some(source) {
            SendView::Superseded
        } else if self.snapshot matches Some(s) && s.data.contains_key(mime) {
            SendView::Snapshot(self.snapshot->0)
        } else {
            SendView::Read(
                ReadView {
                    kind,
                    mime,
                    plan: plan_at(self.plans, mime),
                    timeout: env.transfer_timeout,
                },
            )
        }
    }
}

impl SelCtx {
    /// A Wayland client pastes from a data source of the bridge.
    pub fn on_source_send(&self, env: &Env, kind: SelKind, source: u64, mime: &str) -> (r: SendPlan)
        ensures
            r@ == self@.send_plan(*env, kind, source as nat, mime@),
    {
        let current = match self.source {
            Some(own) => own == source,
            None => false,
        };
        if !current {
            return SendPlan::Superseded;
        }
        if let Some(snapshot) = &self.snapshot {
            if snapshot.has(mime) {
                return SendPlan::Snapshot(snapshot.clone());
            }
        }
        SendPlan::Read(
            X2wRequest {
                kind,
                mime: mime.to_owned(),
                plan: self.plan_for(mime),
                timeout: env.transfer_timeout,
            },
        )
    }
}

} // verus!
