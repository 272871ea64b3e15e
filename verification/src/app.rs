//! The bridge: two selections, and the events that reach them.

use std::time::Instant;

use vstd::prelude::*;

use crate::action;
use crate::action::{Action, ActionView, Env};
use crate::cli::Options;
use crate::payload::Snapshot;
use crate::selection;
use crate::selection::{SelCtx, SelView, SendPlan, Turn};
use crate::text;
use crate::transfer;
use crate::wayland;
use crate::wayland::{Offer, OfferView};
use crate::x11;
use crate::x11::{SelectionRequest, X11};
use crate::SelKind;

verus! {

/// A PRIMARY change, on either side, that is still being debounced.
pub enum PendingPrimary {
    Wayland(Option<Offer>),
    X11 { has_owner: bool },
}

/// The pending change, with an offer's types as texts.
#[verifier::ext_equal]
pub enum PendingView {
    Wayland(Option<OfferView>),
    X11(bool),
}

impl View for PendingPrimary {
    type V = PendingView;

    open spec fn view(&self) -> PendingView {
        match *self {
            PendingPrimary::Wayland(offer) => PendingView::Wayland(wayland::seen(offer)),
            PendingPrimary::X11 { has_owner } => PendingView::X11(has_owner),
        }
    }
}

/// An event of the X server.
#[derive(Debug, Clone, Copy)]
pub enum X11Event {
    /// The bridge lost a selection.
    SelectionClear { selection: u32 },
    /// Somebody wants the content of a selection.
    SelectionRequest(SelectionRequest),
    /// A selection changed hands; `set_owner` tells a new owner from one that
    /// went away.
    SelectionOwner { selection: u32, owner: u32, set_owner: bool },
    /// A conversion was answered.
    SelectionNotify { requestor: u32, selection: u32, target: u32, property: u32 },
    /// Anything else.
    Other,
}

/// The result of fetching a snapshot.
pub struct SnapshotMsg {
    pub kind: SelKind,
    pub snapshot: Snapshot,
}

/// The bridge.
pub struct App {
    env: Env,
    clipboard: SelCtx,
    primary: SelCtx,
    pending_primary: Option<PendingPrimary>,
    primary_gen: u64,
    exit: Option<String>,
}

/// The bridge: its settings, both selections, the PRIMARY change that is being
/// debounced, and the reason to stop.
#[verifier::ext_equal]
pub struct AppView {
    pub env: Env,
    pub clipboard: SelView,
    pub primary: SelView,
    pub pending: Option<PendingView>,
    pub primary_gen: nat,
    pub exit: Option<Seq<char>>,
}

/// The bridge after an event, and what the event asks for.
#[verifier::ext_equal]
pub struct AppTurn {
    pub app: AppView,
    pub acts: Seq<ActionView>,
}

/// The settings that options make.
pub open spec fn settings(x11: X11, wm_window: Option<u32>, options: Options) -> Env {
    Env {
        x11,
        wm_window,
        running: false,
        primary: options.primary,
        skip_sensitive: options.skip_sensitive,
        sync_mode: options.sync_mode,
        aggressive_claims: options.aggressive_claims,
        eager_max: options.eager_max_size,
        transfer_timeout: if options.transfer_timeout > 0 {
            Some(options.transfer_timeout)
        } else {
            None
        },
    }
}

impl AppView {
    /// One of the two selections.
    pub open spec fn sel(self, kind: SelKind) -> SelView {
        match kind {
            SelKind::Clipboard => self.clipboard,
            SelKind::Primary => self.primary,
        }
    }

    /// The bridge with one selection moved on.
    pub open spec fn with(self, kind: SelKind, turn: Turn) -> AppTurn {
        AppTurn {
            app: match kind {
                SelKind::Clipboard => AppView { clipboard: turn.sel, ..self },
                SelKind::Primary => AppView { primary: turn.sel, ..self },
            },
            acts: turn.acts,
        }
    }

    /// Nothing asked for.
    pub open spec fn quiet(self) -> AppTurn {
        AppTurn { app: self, acts: seq![] }
    }

    /// All counters can still be advanced.
    pub open spec fn has_room(self) -> bool {
        self.clipboard.has_room() && self.primary.has_room() && self.primary_gen < u64::MAX
    }

    /// What holds of the bridge at all times.
    pub open spec fn valid(self) -> bool {
        self.clipboard.valid() && self.primary.valid()
    }

    /// The selection that an atom names, where it is bridged.
    pub open spec fn kind_for(self, selection: u32) -> Option<SelKind> {
        if selection == self.env.x11.atoms.clipboard {
            Some(SelKind::Clipboard)
        } else if selection == x11::PRIMARY && self.env.primary {
            Some(SelKind::Primary)
        } else {
            None
        }
    }

    /// The selections whose X11 owner decides the start, CLIPBOARD first: those
    /// that are bridged and not proxied yet.
    pub open spec fn to_probe(self) -> Seq<SelKind> {
        (if self.clipboard.broker.state is Idle {
            seq![SelKind::Clipboard]
        } else {
            seq![]
        }) + (if self.env.primary && self.primary.broker.state is Idle {
            seq![SelKind::Primary]
        } else {
            seq![]
        })
    }

    /// The debounce time of a PRIMARY change passed: only the latest change
    /// counts.
    pub open spec fn after_debounce(self, generation: nat, recent: bool) -> AppTurn {
        if generation != self.primary_gen {
            self.quiet()
        } else {
            let taken = AppView { pending: None, ..self };
            match self.pending {
                None => self.quiet(),
                Some(PendingView::Wayland(offer)) => taken.with(
                    SelKind::Primary,
                    self.primary.after_wayland_selection(
                        self.env,
                        SelKind::Primary,
                        offer,
                        recent,
                    ),
                ),
                Some(PendingView::X11(has_owner)) => taken.with(
                    SelKind::Primary,
                    self.primary.after_x11_primary(self.env, SelKind::Primary, has_owner),
                ),
            }
        }
    }

    /// A PRIMARY change starts to be debounced. Before the event loop runs
    /// there is no timer, so it is taken at once.
    pub open spec fn debounced(self, pending: PendingView, recent: bool) -> AppTurn {
        let waiting = AppView {
            pending: Some(pending),
            primary_gen: self.primary_gen + 1,
            ..self
        };
        if self.env.running {
            AppTurn {
                app: waiting,
                acts: seq![ActionView::ArmPrimaryTimer(waiting.primary_gen)],
            }
        } else {
            waiting.after_debounce(waiting.primary_gen, recent)
        }
    }

    /// What becomes of an offer that is not wanted.
    pub open spec fn dropped(offer: Option<OfferView>) -> Seq<ActionView> {
        match offer {
            Some(o) => seq![ActionView::DestroyOffer(o.id)],
            None => seq![],
        }
    }

    /// A Wayland selection event. While the bridge's own data source is alive
    /// it is the bridge's claim coming back: a real takeover would have
    /// cancelled the source first.
    pub open spec fn after_wayland_selection(
        self,
        kind: SelKind,
        offer: Option<OfferView>,
        recent: bool,
    ) -> AppTurn {
        if self.sel(kind).source is Some {
            AppTurn { app: self, acts: Self::dropped(offer) }
        } else {
            match kind {
                SelKind::Primary => self.debounced(PendingView::Wayland(offer), recent),
                SelKind::Clipboard => self.with(
                    kind,
                    self.clipboard.after_wayland_selection(self.env, kind, offer, recent),
                ),
            }
        }
    }

    /// A Wayland PRIMARY event, where PRIMARY may not be bridged at all.
    pub open spec fn after_wayland_primary(self, offer: Option<OfferView>, recent: bool) -> AppTurn {
        if self.env.primary {
            self.after_wayland_selection(SelKind::Primary, offer, recent)
        } else {
            AppTurn { app: self, acts: Self::dropped(offer) }
        }
    }

    /// An X11 selection changed hands. A change to the bridge's own window is
    /// the bridge's claim coming back.
    pub open spec fn after_x11_owner(self, selection: u32, owner: u32, set_owner: bool) -> AppTurn {
        match self.kind_for(selection) {
            None => self.quiet(),
            Some(kind) => {
                let has_owner = owner != x11::NONE && set_owner;
                if owner == self.env.x11.win {
                    self.quiet()
                } else {
                    match kind {
                        SelKind::Primary => self.debounced(PendingView::X11(has_owner), false),
                        SelKind::Clipboard => self.with(
                            kind,
                            self.clipboard.after_x11_owner(self.env, kind, owner, has_owner),
                        ),
                    }
                }
            },
        }
    }

    /// An event of the X server.
    pub open spec fn after_x11_event(self, event: X11Event) -> AppTurn {
        match event {
            X11Event::SelectionClear { selection } => match self.kind_for(selection) {
                Some(kind) => self.with(kind, self.sel(kind).after_lost(self.env, kind)),
                None => self.quiet(),
            },
            X11Event::SelectionRequest(req) => match self.kind_for(req.selection) {
                Some(kind) => self.with(kind, self.sel(kind).after_request(self.env, kind, req)),
                None => AppTurn {
                    app: self,
                    acts: seq![ActionView::Notify(transfer::answer(req, None))],
                },
            },
            X11Event::SelectionOwner { selection, owner, set_owner } => self.after_x11_owner(
                selection,
                owner,
                set_owner,
            ),
            X11Event::SelectionNotify { requestor, selection, target, property } => if requestor
                == self.env.x11.win && target == self.env.x11.atoms.targets {
                match self.kind_for(selection) {
                    Some(kind) => self.with(
                        kind,
                        self.sel(kind).after_targets_reply(self.env, kind, property),
                    ),
                    None => self.quiet(),
                }
            } else {
                self.quiet()
            },
            X11Event::Other => self.quiet(),
        }
    }
}

impl View for App {
    type V = AppView;

    closed spec fn view(&self) -> AppView {
        AppView {
            env: self.env,
            clipboard: self.clipboard@,
            primary: self.primary@,
            pending: match self.pending_primary {
                Some(p) => Some(p@),
                None => None,
            },
            primary_gen: self.primary_gen as nat,
            exit: match self.exit {
                Some(e) => Some(e@),
                None => None,
            },
        }
    }
}

impl App {
    /// A bridge whose event loop does not run yet.
    pub fn new(x11: X11, wm_window: Option<u32>, options: &Options) -> (r: Self)
        ensures
            r@ == (AppView {
                env: settings(x11, wm_window, *options),
                clipboard: SelView::initial(),
                primary: SelView::initial(),
                pending: None,
                primary_gen: 0,
                exit: None,
            }),
    {
        let env = Env {
            x11,
            wm_window,
            running: false,
            primary: options.primary,
            skip_sensitive: options.skip_sensitive,
            sync_mode: options.sync_mode,
            aggressive_claims: options.aggressive_claims,
            eager_max: options.eager_max_size,
            transfer_timeout: if options.transfer_timeout > 0 {
                Some(options.transfer_timeout)
            } else {
                None
            },
        };
        App {
            env,
            clipboard: SelCtx::default(),
            primary: SelCtx::default(),
            pending_primary: None,
            primary_gen: 0,
            exit: None,
        }
    }

    /// The event loop runs from now on.
    pub fn start(&mut self)
        ensures
            final(self)@ == (AppView {
                env: Env { running: true, ..old(self)@.env },
                ..old(self)@
            }),
    {
        self.env.running = true;
    }

    /// The connection and the settings.
    pub fn env(&self) -> (r: &Env)
        ensures
            *r == self@.env,
    {
        &self.env
    }

    /// Why the bridge stops, once it does.
    pub fn exit(&self) -> (r: Option<&String>)
        ensures
            r matches Some(e) ==> self@.exit == Some(e@),
            r is None ==> self@.exit is None,
    {
        match &self.exit {
            Some(e) => Some(e),
            None => None,
        }
    }

    /// True when all counters can still be advanced.
    pub fn can_advance(&self) -> (r: bool)
        ensures
            r == self@.has_room(),
    {
        self.clipboard.can_advance() && self.primary.can_advance() && self.primary_gen < u64::MAX
    }

    /// Stops the bridge; the first reason is the one that counts.
    pub fn fatal(&mut self, error: String) -> (r: Vec<Action>)
        ensures
            final(self)@ == (AppView {
                exit: match old(self)@.exit {
                    Some(e) => Some(e),
                    None => Some(error@),
                },
                ..old(self)@
            }),
            action::acts(r@) == seq![ActionView::Stop],
    {
        let ghost before = self@;
        if self.exit.is_none() {
            self.exit = Some(error);
        }
        let mut out: Vec<Action> = Vec::new();
        out.push(Action::Stop);
        assert(action::acts(out@) =~= seq![ActionView::Stop]);
        out
    }

    /// The compositor ended the data-control device. The process that follows
    /// starts with a fresh connection.
    pub fn on_wayland_finished(&mut self) -> (r: Vec<Action>)
        ensures
            final(self)@ == (AppView {
                exit: match old(self)@.exit {
                    Some(e) => Some(e),
                    None => Some("compositor finished our data-control device"@),
                },
                ..old(self)@
            }),
            action::acts(r@) == seq![ActionView::Stop],
    {
        self.fatal("compositor finished our data-control device".to_owned())
    }

    /// The selection that an atom names, where it is bridged.
    pub fn kind_for_selection(&self, selection: u32) -> (r: Option<SelKind>)
        ensures
            r == self@.kind_for(selection),
    {
        if selection == self.env.x11.atoms.clipboard {
            Some(SelKind::Clipboard)
        } else if selection == x11::PRIMARY && self.env.primary {
            Some(SelKind::Primary)
        } else {
            None
        }
    }

    /// The selections whose X11 owner decides the start, CLIPBOARD first: those
    /// that are bridged and not proxied yet.
    pub fn probe_x11_startup(&self) -> (r: Vec<SelKind>)
        ensures
            r@ == self@.to_probe(),
    {
        let mut out: Vec<SelKind> = Vec::new();
        if self.clipboard.is_idle() {
            out.push(SelKind::Clipboard);
        }
        if self.env.primary && self.primary.is_idle() {
            out.push(SelKind::Primary);
        }
        assert(out@ =~= self@.to_probe());
        out
    }

    /// A Wayland client pastes from a data source of the bridge: says where it
    /// gets its bytes.
    pub fn on_source_send(&self, kind: SelKind, source: u64, mime: &str) -> (r: SendPlan)
        ensures
            r@ == self@.sel(kind).send_plan(self@.env, kind, source as nat, mime@),
    {
        match kind {
            SelKind::Clipboard => self.clipboard.on_source_send(&self.env, kind, source, mime),
            SelKind::Primary => self.primary.on_source_send(&self.env, kind, source, mime),
        }
    }

    /// The compositor cancelled a data source of the bridge.
    pub fn on_source_cancelled(&mut self, kind: SelKind, source: u64) -> (r: Vec<Action>)
        ensures
            final(self)@ == old(self)@.with(
                kind,
                old(self)@.sel(kind).after_source_cancelled(kind, source as nat),
            ).app,
            action::acts(r@) == old(self)@.sel(kind).after_source_cancelled(
                kind,
                source as nat,
            ).acts,
    {
        let mut out: Vec<Action> = Vec::new();
        assert(action::acts(out@) =~= seq![]);
        let ghost turn = self@.sel(kind).after_source_cancelled(kind, source as nat);
        let ghost next = self@.with(kind, turn).app;
        match kind {
            SelKind::Clipboard => self.clipboard.source_cancelled(kind, source, &mut out),
            SelKind::Primary => self.primary.source_cancelled(kind, source, &mut out),
        }
        assert(action::acts(out@) =~= turn.acts);
        assert(self@ =~= next);
        out
    }

    /// Who owned the X11 selection when the bridge started.
    pub fn on_startup_owner(&mut self, kind: SelKind, owner: u32) -> (r: Vec<Action>)
        requires
            old(self)@.has_room(),
        ensures
            final(self)@ == old(self)@.with(
                kind,
                old(self)@.sel(kind).after_startup(old(self)@.env, kind, owner),
            ).app,
            action::acts(r@) == old(self)@.sel(kind).after_startup(old(self)@.env, kind, owner).acts,
    {
        let mut out: Vec<Action> = Vec::new();
        assert(action::acts(out@) =~= seq![]);
        let env = self.env;
        let ghost turn = self@.sel(kind).after_startup(self@.env, kind, owner);
        let ghost next = self@.with(kind, turn).app;
        match kind {
            SelKind::Clipboard => self.clipboard.on_startup_owner(&env, kind, owner, &mut out),
            SelKind::Primary => self.primary.on_startup_owner(&env, kind, owner, &mut out),
        }
        assert(action::acts(out@) =~= turn.acts);
        assert(self@ =~= next);
        out
    }

    /// The gap window of a selection passed.
    pub fn fire_gap_fill(&mut self, kind: SelKind) -> (r: Vec<Action>)
        requires
            old(self)@.has_room(),
        ensures
            final(self)@ == old(self)@.with(
                kind,
                old(self)@.sel(kind).after_gap(old(self)@.env, kind),
            ).app,
            action::acts(r@) == old(self)@.sel(kind).after_gap(old(self)@.env, kind).acts,
    {
        let mut out: Vec<Action> = Vec::new();
        assert(action::acts(out@) =~= seq![]);
        let env = self.env;
        let ghost turn = self@.sel(kind).after_gap(self@.env, kind);
        let ghost next = self@.with(kind, turn).app;
        match kind {
            SelKind::Clipboard => self.clipboard.fire_gap_fill(&env, kind, &mut out),
            SelKind::Primary => self.primary.fire_gap_fill(&env, kind, &mut out),
        }
        assert(action::acts(out@) =~= turn.acts);
        assert(self@ =~= next);
        out
    }

    /// The names of an X11 owner's targets were read, or could not be.
    pub fn on_targets_read(
        &mut self,
        kind: SelKind,
        epoch: u64,
        names: Option<Vec<String>>,
    ) -> (r: Vec<Action>)
        requires
            old(self)@.has_room(),
        ensures
            final(self)@ == old(self)@.with(
                kind,
                old(self)@.sel(kind).after_targets_read(
                    old(self)@.env,
                    kind,
                    epoch as nat,
                    text::optional_texts(names),
                ),
            ).app,
            action::acts(r@) == old(self)@.sel(kind).after_targets_read(
                old(self)@.env,
                kind,
                epoch as nat,
                text::optional_texts(names),
            ).acts,
    {
        let mut out: Vec<Action> = Vec::new();
        assert(action::acts(out@) =~= seq![]);
        let env = self.env;
        let ghost turn = self@.sel(kind).after_targets_read(
            self@.env,
            kind,
            epoch as nat,
            text::optional_texts(names),
        );
        let ghost next = self@.with(kind, turn).app;
        match kind {
            SelKind::Clipboard => self.clipboard.on_targets_read(&env, kind, epoch, names, &mut out),
            SelKind::Primary => self.primary.on_targets_read(&env, kind, epoch, names, &mut out),
        }
        assert(action::acts(out@) =~= turn.acts);
        assert(self@ =~= next);
        out
    }

    /// The targets of a claim were interned.
    pub fn on_targets_interned(&mut self, kind: SelKind, epoch: u64, atoms: &[u32]) -> (r: Vec<Action>)
        ensures
            final(self)@ == old(self)@.with(
                kind,
                old(self)@.sel(kind).after_interned(old(self)@.env, kind, epoch as nat, atoms@),
            ).app,
            action::acts(r@) == old(self)@.sel(kind).after_interned(
                old(self)@.env,
                kind,
                epoch as nat,
                atoms@,
            ).acts,
    {
        let mut out: Vec<Action> = Vec::new();
        assert(action::acts(out@) =~= seq![]);
        let env = self.env;
        let ghost turn = self@.sel(kind).after_interned(self@.env, kind, epoch as nat, atoms@);
        let ghost next = self@.with(kind, turn).app;
        match kind {
            SelKind::Clipboard => self.clipboard.on_targets_interned(
                &env,
                kind,
                epoch,
                atoms,
                &mut out,
            ),
            SelKind::Primary => self.primary.on_targets_interned(&env, kind, epoch, atoms, &mut out),
        }
        assert(action::acts(out@) =~= turn.acts);
        assert(self@ =~= next);
        out
    }

    /// The capture for a claim is on its way.
    pub fn on_capture_started(&mut self, kind: SelKind, epoch: u64)
        ensures
            final(self)@ == old(self)@.with(
                kind,
                old(self)@.sel(kind).after_capture_started(epoch as nat).quiet(),
            ).app,
    {
        let ghost next = self@.with(
            kind,
            self@.sel(kind).after_capture_started(epoch as nat).quiet(),
        ).app;
        match kind {
            SelKind::Clipboard => self.clipboard.on_capture_started(epoch),
            SelKind::Primary => self.primary.on_capture_started(epoch),
        }
        assert(self@ =~= next);
    }

    /// The X11 selection was asked for at a time of the server, and this is its
    /// owner now. The claim is made at the time that the clock shows.
    pub fn on_x11_claimed(&mut self, kind: SelKind, owner: u32, time: u32)
        ensures
            exists|at: Instant| #[trigger]
                selection::clock_shows(at) && final(self)@ == old(self)@.with(
                    kind,
                    old(self)@.sel(kind).after_claimed(old(self)@.env, owner, time, at).quiet(),
                ).app,
    {
        let env = self.env;
        let ghost before = self@;
        match kind {
            SelKind::Clipboard => self.clipboard.on_x11_claimed(&env, owner, time),
            SelKind::Primary => self.primary.on_x11_claimed(&env, owner, time),
        }
        proof {
            let at = choose|at: Instant| #[trigger]
                selection::clock_shows(at) && self@.sel(kind) == before.sel(kind).after_claimed(
                    env,
                    owner,
                    time,
                    at,
                );
            assert(self@ =~= before.with(
                kind,
                before.sel(kind).after_claimed(env, owner, time, at).quiet(),
            ).app);
        }
    }

    /// The X11 selection was asked for again, and this is its owner now.
    pub fn on_x11_reclaimed(&mut self, kind: SelKind, owner: u32, time: u32)
        ensures
            final(self)@ == old(self)@.with(
                kind,
                old(self)@.sel(kind).after_reclaimed(old(self)@.env, owner, time).quiet(),
            ).app,
    {
        let env = self.env;
        let ghost next = self@.with(
            kind,
            self@.sel(kind).after_reclaimed(env, owner, time).quiet(),
        ).app;
        match kind {
            SelKind::Clipboard => self.clipboard.on_x11_reclaimed(&env, owner, time),
            SelKind::Primary => self.primary.on_x11_reclaimed(&env, owner, time),
        }
        assert(self@ =~= next);
    }

    /// A snapshot came in.
    pub fn on_snapshot(&mut self, msg: SnapshotMsg) -> (r: Vec<Action>)
        ensures
            final(self)@ == old(self)@.with(
                msg.kind,
                old(self)@.sel(msg.kind).after_snapshot(old(self)@.env, msg.kind, msg.snapshot@),
            ).app,
            action::acts(r@) == old(self)@.sel(msg.kind).after_snapshot(
                old(self)@.env,
                msg.kind,
                msg.snapshot@,
            ).acts,
    {
        let mut out: Vec<Action> = Vec::new();
        assert(action::acts(out@) =~= seq![]);
        let env = self.env;
        let ghost turn = self@.sel(msg.kind).after_snapshot(env, msg.kind, msg.snapshot@);
        let ghost next = self@.with(msg.kind, turn).app;
        let kind = msg.kind;
        match kind {
            SelKind::Clipboard => self.clipboard.on_snapshot(&env, kind, msg.snapshot, &mut out),
            SelKind::Primary => self.primary.on_snapshot(&env, kind, msg.snapshot, &mut out),
        }
        assert(action::acts(out@) =~= turn.acts);
        assert(self@ =~= next);
        out
    }

    /// True when the bridge's own X11 claim on a selection was made within the
    /// echo window. That is the clock's to say.
    fn claim_is_recent(&self, kind: SelKind) -> (r: bool)
        ensures
            self@.sel(kind).claim_judged_recent(r),
    {
        match kind {
            SelKind::Clipboard => self.clipboard.claim_is_recent(),
            SelKind::Primary => self.primary.claim_is_recent(),
        }
    }

    /// The debounce time of a PRIMARY change passed; `recent` says whether the
    /// bridge's own X11 claim was made within the echo window.
    pub fn primary_debounced(&mut self, generation: u64, recent: bool) -> (r: Vec<Action>)
        requires
            old(self)@.primary.has_room(),
        ensures
            final(self)@ == old(self)@.after_debounce(generation as nat, recent).app,
            action::acts(r@) == old(self)@.after_debounce(generation as nat, recent).acts,
    {
        let mut out: Vec<Action> = Vec::new();
        assert(action::acts(out@) =~= seq![]);
        let env = self.env;
        let ghost turn = self@.after_debounce(generation as nat, recent);
        if generation != self.primary_gen {
            return out;
        }
        match self.pending_primary.take() {
            Some(PendingPrimary::Wayland(offer)) => {
                self.primary.process_wayland_selection(
                    &env,
                    SelKind::Primary,
                    offer,
                    recent,
                    &mut out,
                );
            },
            Some(PendingPrimary::X11 { has_owner }) => {
                self.primary.x11_primary_changed(&env, SelKind::Primary, has_owner, &mut out);
            },
            None => {},
        }
        assert(action::acts(out@) =~= turn.acts);
        assert(self@ =~= turn.app);
        out
    }

    /// Starts to debounce a PRIMARY change.
    fn debounce_primary(&mut self, pending: PendingPrimary, recent: bool) -> (r: Vec<Action>)
        requires
            old(self)@.primary.has_room(),
            old(self)@.primary_gen < u64::MAX,
        ensures
            final(self)@ == old(self)@.debounced(pending@, recent).app,
            action::acts(r@) == old(self)@.debounced(pending@, recent).acts,
    {
        let ghost turn = self@.debounced(pending@, recent);
        self.primary_gen = self.primary_gen + 1;
        self.pending_primary = Some(pending);
        let generation = self.primary_gen;
        if self.env.running {
            let mut out: Vec<Action> = Vec::new();
            out.push(Action::ArmPrimaryTimer(generation));
            assert(action::acts(out@) =~= turn.acts);
            assert(self@ =~= turn.app);
            out
        } else {
            self.primary_debounced(generation, recent)
        }
    }
}

impl App {
    /// A Wayland selection event; `recent` says whether the bridge's own X11
    /// claim was made within the echo window.
    pub fn wayland_selection(
        &mut self,
        kind: SelKind,
        offer: Option<Offer>,
        recent: bool,
    ) -> (r: Vec<Action>)
        requires
            old(self)@.has_room(),
        ensures
            final(self)@ == old(self)@.after_wayland_selection(
                kind,
                wayland::seen(offer),
                recent,
            ).app,
            action::acts(r@) == old(self)@.after_wayland_selection(
                kind,
                wayland::seen(offer),
                recent,
            ).acts,
    {
        let mut out: Vec<Action> = Vec::new();
        assert(action::acts(out@) =~= seq![]);
        let env = self.env;
        let ghost turn = self@.after_wayland_selection(kind, wayland::seen(offer), recent);
        let own = match kind {
            SelKind::Clipboard => self.clipboard.has_source(),
            SelKind::Primary => self.primary.has_source(),
        };
        if own {
            if let Some(o) = &offer {
                out.push(Action::DestroyOffer(o.id));
            }
            assert(action::acts(out@) =~= turn.acts);
            return out;
        }
        match kind {
            SelKind::Primary => self.debounce_primary(PendingPrimary::Wayland(offer), recent),
            SelKind::Clipboard => {
                self.clipboard.process_wayland_selection(&env, kind, offer, recent, &mut out);
                assert(action::acts(out@) =~= turn.acts);
                assert(self@ =~= turn.app);
                out
            },
        }
    }

    /// A Wayland selection event. The clock is asked whether the bridge's own
    /// X11 claim is recent; either way what follows is exact.
    pub fn on_wayland_selection(&mut self, kind: SelKind, offer: Option<Offer>) -> (r: Vec<Action>)
        requires
            old(self)@.has_room(),
        ensures
            exists|recent: bool|
                {
                    let turn = #[trigger] old(self)@.after_wayland_selection(
                        kind,
                        wayland::seen(offer),
                        recent,
                    );
                    &&& old(self)@.sel(kind).claim_judged_recent(recent)
                    &&& final(self)@ == turn.app && action::acts(r@) == turn.acts
                },
    {
        let recent = self.claim_is_recent(kind);
        let ghost before = self@;
        let ghost seen = wayland::seen(offer);
        let r = self.wayland_selection(kind, offer, recent);
        proof {
            let turn = before.after_wayland_selection(kind, seen, recent);
            assert(self@ == turn.app && action::acts(r@) == turn.acts);
        }
        r
    }

    /// A Wayland PRIMARY event; `recent` says whether the bridge's own X11
    /// claim was made within the echo window.
    pub fn wayland_primary(&mut self, offer: Option<Offer>, recent: bool) -> (r: Vec<Action>)
        requires
            old(self)@.has_room(),
        ensures
            final(self)@ == old(self)@.after_wayland_primary(wayland::seen(offer), recent).app,
            action::acts(r@) == old(self)@.after_wayland_primary(wayland::seen(offer), recent).acts,
    {
        if self.env.primary {
            self.wayland_selection(SelKind::Primary, offer, recent)
        } else {
            let mut out: Vec<Action> = Vec::new();
            if let Some(o) = &offer {
                out.push(Action::DestroyOffer(o.id));
            }
            assert(action::acts(out@) =~= AppView::dropped(wayland::seen(offer)));
            out
        }
    }

    /// A Wayland PRIMARY event. The clock is asked whether the bridge's own
    /// X11 claim is recent; either way what follows is exact.
    pub fn on_wayland_primary(&mut self, offer: Option<Offer>) -> (r: Vec<Action>)
        requires
            old(self)@.has_room(),
        ensures
            exists|recent: bool|
                {
                    let turn = #[trigger] old(self)@.after_wayland_primary(
                        wayland::seen(offer),
                        recent,
                    );
                    &&& old(self)@.primary.claim_judged_recent(recent)
                    &&& final(self)@ == turn.app && action::acts(r@) == turn.acts
                },
    {
        let recent = self.claim_is_recent(SelKind::Primary);
        let ghost before = self@;
        let ghost seen = wayland::seen(offer);
        let r = self.wayland_primary(offer, recent);
        proof {
            let turn = before.after_wayland_primary(seen, recent);
            assert(self@ == turn.app && action::acts(r@) == turn.acts);
        }
        r
    }

    /// The debounce time of a PRIMARY change passed. The clock is asked
    /// whether the bridge's own X11 claim is recent; either way what follows
    /// is exact.
    pub fn fire_primary_debounce(&mut self, generation: u64) -> (r: Vec<Action>)
        requires
            old(self)@.primary.has_room(),
        ensures
            exists|recent: bool|
                {
                    let turn = #[trigger] old(self)@.after_debounce(generation as nat, recent);
                    &&& old(self)@.primary.claim_judged_recent(recent)
                    &&& final(self)@ == turn.app && action::acts(r@) == turn.acts
                },
    {
        let recent = self.claim_is_recent(SelKind::Primary);
        let ghost before = self@;
        let r = self.primary_debounced(generation, recent);
        proof {
            let turn = before.after_debounce(generation as nat, recent);
            assert(self@ == turn.app && action::acts(r@) == turn.acts);
        }
        r
    }

    /// An X11 selection changed hands.
    fn on_xfixes_notify(&mut self, selection: u32, owner: u32, set_owner: bool) -> (r: Vec<Action>)
        requires
            old(self)@.has_room(),
        ensures
            final(self)@ == old(self)@.after_x11_owner(selection, owner, set_owner).app,
            action::acts(r@) == old(self)@.after_x11_owner(selection, owner, set_owner).acts,
    {
        let mut out: Vec<Action> = Vec::new();
        assert(action::acts(out@) =~= seq![]);
        let env = self.env;
        let ghost turn = self@.after_x11_owner(selection, owner, set_owner);
        let kind = match self.kind_for_selection(selection) {
            Some(kind) => kind,
            None => {
                return out;
            },
        };
        if owner == env.x11.win {
            return out;
        }
        let has_owner = owner != x11::NONE && set_owner;
        match kind {
            SelKind::Primary => self.debounce_primary(PendingPrimary::X11 { has_owner }, false),
            SelKind::Clipboard => {
                self.clipboard.x11_owner_changed(&env, kind, owner, has_owner, &mut out);
                assert(action::acts(out@) =~= turn.acts);
                assert(self@ =~= turn.app);
                out
            },
        }
    }

    /// Handles an event of the X server.
    pub fn handle_x11_event(&mut self, event: &X11Event) -> (r: Vec<Action>)
        requires
            old(self)@.has_room(),
        ensures
            final(self)@ == old(self)@.after_x11_event(*event).app,
            action::acts(r@) == old(self)@.after_x11_event(*event).acts,
    {
        let mut out: Vec<Action> = Vec::new();
        assert(action::acts(out@) =~= seq![]);
        let env = self.env;
        let ghost turn = self@.after_x11_event(*event);
        match *event {
            X11Event::SelectionClear { selection } => {
                match self.kind_for_selection(selection) {
                    Some(SelKind::Clipboard) => {
                        self.clipboard.x11_lost(&env, SelKind::Clipboard, &mut out);
                    },
                    Some(SelKind::Primary) => {
                        self.primary.x11_lost(&env, SelKind::Primary, &mut out);
                    },
                    None => {},
                }
            },
            X11Event::SelectionRequest(req) => {
                match self.kind_for_selection(req.selection) {
                    Some(SelKind::Clipboard) => {
                        self.clipboard.on_selection_request(
                            &env,
                            SelKind::Clipboard,
                            &req,
                            &mut out,
                        );
                    },
                    Some(SelKind::Primary) => {
                        self.primary.on_selection_request(&env, SelKind::Primary, &req, &mut out);
                    },
                    None => {
                        out.push(Action::Notify(transfer::notify(&req, None)));
                    },
                }
            },
            X11Event::SelectionOwner { selection, owner, set_owner } => {
                return self.on_xfixes_notify(selection, owner, set_owner);
            },
            X11Event::SelectionNotify { requestor, selection, target, property } => {
                if requestor == env.x11.win && target == env.x11.atoms.targets {
                    match self.kind_for_selection(selection) {
                        Some(SelKind::Clipboard) => {
                            self.clipboard.on_targets_reply(
                                &env,
                                SelKind::Clipboard,
                                property,
                                &mut out,
                            );
                        },
                        Some(SelKind::Primary) => {
                            self.primary.on_targets_reply(
                                &env,
                                SelKind::Primary,
                                property,
                                &mut out,
                            );
                        },
                        None => {},
                    }
                }
            },
            X11Event::Other => {},
        }
        assert(action::acts(out@) =~= turn.acts);
        assert(self@ =~= turn.app);
        out
    }
}

} // verus!
