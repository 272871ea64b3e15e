//! The broker: one state machine per selection, events in and commands out.
//!
//! At any time each side's selection is owned by a real application or by the
//! bridge as a proxy for the other side. The broker tracks which, and counts
//! every change of ownership.

use vstd::prelude::*;

use crate::text;

verus! {

/// Who owns the selection.
#[derive(Debug, Clone, PartialEq, Eq)]
pub enum State {
    /// Neither side has a selection to proxy.
    Idle,
    /// A real Wayland client owns the selection; the bridge proxies it on the
    /// X11 side.
    WaylandApp { mime_types: Vec<String> },
    /// A real X11 client owns the selection; the bridge proxies it on the
    /// Wayland side. The list is empty until the owner's targets are known.
    X11App { mime_types: Vec<String> },
}

/// What happened to the selection. Claims by the bridge itself are filtered
/// out by identity before they get here.
#[derive(Debug, Clone, PartialEq, Eq)]
pub enum Event {
    /// A real Wayland client took the selection, offering these MIME types.
    WaylandSelection { mime_types: Vec<String> },
    /// The Wayland selection was cleared (owner exited or set to null).
    WaylandCleared,
    /// A real X11 client took the X11 selection.
    X11Selection,
    /// The X11 owner's targets, translated, for the claim with this epoch.
    X11Targets { epoch: u64, mime_types: Vec<String> },
    /// The X11 selection lost its owner.
    X11Cleared,
    /// A real X11 client took the X11 selection away from the bridge.
    X11Lost,
}

/// What to do about it.
#[derive(Debug, Clone, PartialEq, Eq)]
pub enum Command {
    /// Claim the X11 selection as proxy for the Wayland owner.
    ClaimX11 { epoch: u64 },
    /// Drop the X11 claim.
    ReleaseX11,
    /// Ask the X11 owner for its targets.
    FetchX11Targets { epoch: u64 },
    /// Claim the Wayland selection as proxy for the X11 owner.
    ClaimWayland { epoch: u64, mime_types: Vec<String> },
    /// Drop the Wayland claim.
    ReleaseWayland,
}

/// The state, with types as texts.
#[verifier::ext_equal]
pub enum StateView {
    Idle,
    WaylandApp(Seq<Seq<char>>),
    X11App(Seq<Seq<char>>),
}

/// The event, with types as texts.
#[verifier::ext_equal]
pub enum EventView {
    WaylandSelection(Seq<Seq<char>>),
    WaylandCleared,
    X11Selection,
    X11Targets(nat, Seq<Seq<char>>),
    X11Cleared,
    X11Lost,
}

/// The command, with types as texts.
#[verifier::ext_equal]
pub enum CommandView {
    ClaimX11(nat),
    ReleaseX11,
    FetchX11Targets(nat),
    ClaimWayland(nat, Seq<Seq<char>>),
    ReleaseWayland,
}

/// The broker: its state and its epoch.
#[verifier::ext_equal]
pub struct BrokerView {
    pub state: StateView,
    pub epoch: nat,
}

impl View for State {
    type V = StateView;

    open spec fn view(&self) -> StateView {
        match *self {
            State::Idle => StateView::Idle,
            State::WaylandApp { mime_types } => StateView::WaylandApp(text::texts(mime_types@)),
            State::X11App { mime_types } => StateView::X11App(text::texts(mime_types@)),
        }
    }
}

impl View for Event {
    type V = EventView;

    open spec fn view(&self) -> EventView {
        match *self {
            Event::WaylandSelection { mime_types } => EventView::WaylandSelection(
                text::texts(mime_types@),
            ),
            Event::WaylandCleared => EventView::WaylandCleared,
            Event::X11Selection => EventView::X11Selection,
            Event::X11Targets { epoch, mime_types } => EventView::X11Targets(
                epoch as nat,
                text::texts(mime_types@),
            ),
            Event::X11Cleared => EventView::X11Cleared,
            Event::X11Lost => EventView::X11Lost,
        }
    }
}

impl View for Command {
    type V = CommandView;

    open spec fn view(&self) -> CommandView {
        match *self {
            Command::ClaimX11 { epoch } => CommandView::ClaimX11(epoch as nat),
            Command::ReleaseX11 => CommandView::ReleaseX11,
            Command::FetchX11Targets { epoch } => CommandView::FetchX11Targets(epoch as nat),
            Command::ClaimWayland { epoch, mime_types } => CommandView::ClaimWayland(
                epoch as nat,
                text::texts(mime_types@),
            ),
            Command::ReleaseWayland => CommandView::ReleaseWayland,
        }
    }
}

/// The commands of a list, one by one.
pub open spec fn commands(list: Seq<Command>) -> Seq<CommandView> {
    list.map_values(|c: Command| c@)
}

impl BrokerView {
    /// The broker at the start.
    pub open spec fn initial() -> Self {
        BrokerView { state: StateView::Idle, epoch: 0 }
    }

    /// The broker after one change of ownership.
    pub open spec fn moved_to(self, state: StateView) -> Self {
        BrokerView { state, epoch: self.epoch + 1 }
    }

    /// The targets belong to the X11 owner that is being proxied now.
    pub open spec fn awaits(self, epoch: nat) -> bool {
        self.state is X11App && epoch == self.epoch
    }

    /// The broker after an event.
    pub open spec fn after(self, event: EventView) -> Self {
        match event {
            EventView::WaylandSelection(types) => self.moved_to(StateView::WaylandApp(types)),
            EventView::WaylandCleared => self.moved_to(StateView::Idle),
            EventView::X11Selection => self.moved_to(StateView::X11App(seq![])),
            EventView::X11Targets(epoch, types) => if !self.awaits(epoch) {
                self
            } else if types.len() == 0 {
                BrokerView { state: StateView::Idle, ..self }
            } else {
                BrokerView { state: StateView::X11App(types), ..self }
            },
            EventView::X11Cleared => if self.state is X11App {
                self.moved_to(StateView::Idle)
            } else {
                self
            },
            EventView::X11Lost => self.moved_to(StateView::Idle),
        }
    }

    /// The commands that an event asks for.
    pub open spec fn asks(self, event: EventView) -> Seq<CommandView> {
        match event {
            EventView::WaylandSelection(types) => seq![CommandView::ClaimX11(self.epoch + 1)],
            EventView::WaylandCleared => if self.state is WaylandApp {
                seq![CommandView::ReleaseX11]
            } else {
                seq![]
            },
            EventView::X11Selection => seq![CommandView::FetchX11Targets(self.epoch + 1)],
            EventView::X11Targets(epoch, types) => if !self.awaits(epoch) {
                seq![]
            } else if types.len() == 0 {
                seq![CommandView::ReleaseWayland]
            } else {
                seq![CommandView::ClaimWayland(epoch, types)]
            },
            EventView::X11Cleared => if self.state is X11App {
                seq![CommandView::ReleaseWayland]
            } else {
                seq![]
            },
            EventView::X11Lost => seq![],
        }
    }
}

/// The state machine of one selection.
pub struct Broker {
    state: State,
    epoch: u64,
}

impl View for Broker {
    type V = BrokerView;

    closed spec fn view(&self) -> BrokerView {
        BrokerView { state: self.state@, epoch: self.epoch as nat }
    }
}

impl Default for Broker {
    fn default() -> (r: Self)
        ensures
            r@ == BrokerView::initial(),
    {
        Broker::new()
    }
}

impl Broker {
    /// A broker that proxies nothing.
    pub fn new() -> (r: Self)
        ensures
            r@ == BrokerView::initial(),
    {
        Broker { state: State::Idle, epoch: 0 }
    }

    /// Who owns the selection.
    pub fn state(&self) -> (r: &State)
        ensures
            r@ == self@.state,
    {
        &self.state
    }

    /// How many changes of ownership there have been.
    pub fn epoch(&self) -> (r: u64)
        ensures
            r == self@.epoch,
    {
        self.epoch
    }

    /// Takes one event and returns the commands it asks for.
    pub fn handle(&mut self, event: Event) -> (r: Vec<Command>)
        requires
            old(self)@.after(event@).epoch <= u64::MAX,
        ensures
            final(self)@ == old(self)@.after(event@),
            commands(r@) == old(self)@.asks(event@),
    {
        let mut out: Vec<Command> = Vec::new();
        let ghost asked = self@.asks(event@);
        match event {
            Event::WaylandSelection { mime_types } => {
                self.epoch = self.epoch + 1;
                self.state = State::WaylandApp { mime_types };
                out.push(Command::ClaimX11 { epoch: self.epoch });
            },
            Event::WaylandCleared => {
                self.epoch = self.epoch + 1;
                if let State::WaylandApp { .. } = self.state {
                    out.push(Command::ReleaseX11);
                }
                self.state = State::Idle;
            },
            Event::X11Selection => {
                self.epoch = self.epoch + 1;
                self.state = State::X11App { mime_types: Vec::new() };
                assert(self.state@->X11App_0 =~= seq![]);
                out.push(Command::FetchX11Targets { epoch: self.epoch });
            },
            Event::X11Targets { epoch, mime_types } => {
                let proxied = if let State::X11App { .. } = self.state {
                    true
                } else {
                    false
                };
                if proxied && epoch == self.epoch {
                    if mime_types.len() == 0 {
                        self.state = State::Idle;
                        out.push(Command::ReleaseWayland);
                    } else {
                        let advertised = text::copied(mime_types.as_slice());
                        self.state = State::X11App { mime_types };
                        out.push(Command::ClaimWayland { epoch, mime_types: advertised });
                    }
                }
            },
            Event::X11Cleared => {
                if let State::X11App { .. } = self.state {
                    self.epoch = self.epoch + 1;
                    self.state = State::Idle;
                    out.push(Command::ReleaseWayland);
                }
            },
            Event::X11Lost => {
                self.epoch = self.epoch + 1;
                self.state = State::Idle;
            },
        }
        assert(commands(out@) =~= asked);
        out
    }
}

/// The epoch never goes back, and one event moves it by one at most.
pub proof fn epoch_counts_forward(broker: BrokerView, event: EventView)
    ensures
        broker.epoch <= broker.after(event).epoch <= broker.epoch + 1,
{
}

/// Targets that arrive late, for an owner that is no longer proxied, change
/// nothing and ask for nothing.
pub proof fn late_targets_are_ignored(broker: BrokerView, epoch: nat, types: Seq<Seq<char>>)
    requires
        epoch != broker.epoch,
    ensures
        broker.after(EventView::X11Targets(epoch, types)) == broker,
        broker.asks(EventView::X11Targets(epoch, types)).len() == 0,
{
}

/// An owner change on either side makes all targets fetched before it late.
pub proof fn new_owner_makes_targets_late(broker: BrokerView, event: EventView, epoch: nat)
    requires
        event is WaylandSelection || event is WaylandCleared || event is X11Selection
            || event is X11Lost,
        epoch <= broker.epoch,
    ensures
        epoch != broker.after(event).epoch,
{
}

/// The X11 claim is released only by the end of a Wayland owner that was
/// proxied, the Wayland claim only by the end of an X11 owner that was.
pub proof fn releases_end_a_proxy(broker: BrokerView, event: EventView)
    ensures
        broker.asks(event).contains(CommandView::ReleaseX11) ==> broker.state is WaylandApp
            && event is WaylandCleared,
        broker.asks(event).contains(CommandView::ReleaseWayland) ==> broker.state is X11App
            && broker.after(event).state is Idle,
{
}

/// One copy by a real application: on the Wayland side with its types, or on
/// the X11 side with the targets that its owner then reports.
pub enum CopyView {
    Wayland(Seq<Seq<char>>),
    X11(Seq<Seq<char>>),
}

impl BrokerView {
    /// The broker after a copy, with its targets fetched.
    pub open spec fn after_copy(self, copy: CopyView) -> Self {
        match copy {
            CopyView::Wayland(types) => self.after(EventView::WaylandSelection(types)),
            CopyView::X11(types) => self.after(EventView::X11Selection).after(
                EventView::X11Targets(self.epoch + 1, types),
            ),
        }
    }

    /// The commands that a copy asks for, in order.
    pub open spec fn copy_asks(self, copy: CopyView) -> Seq<CommandView> {
        match copy {
            CopyView::Wayland(types) => self.asks(EventView::WaylandSelection(types)),
            CopyView::X11(types) => self.asks(EventView::X11Selection) + self.after(
                EventView::X11Selection,
            ).asks(EventView::X11Targets(self.epoch + 1, types)),
        }
    }

    /// The broker after a row of copies.
    pub open spec fn after_copies(self, copies: Seq<CopyView>) -> Self
        decreases copies.len(),
    {
        if copies.len() == 0 {
            self
        } else {
            self.after_copies(copies.drop_last()).after_copy(copies.last())
        }
    }

    /// The commands that a row of copies asks for, in order.
    pub open spec fn copies_ask(self, copies: Seq<CopyView>) -> Seq<CommandView>
        decreases copies.len(),
    {
        if copies.len() == 0 {
            seq![]
        } else {
            self.copies_ask(copies.drop_last()) + self.after_copies(copies.drop_last()).copy_asks(
                copies.last(),
            )
        }
    }
}

/// The claims among commands.
pub open spec fn claims(list: Seq<CommandView>) -> Seq<CommandView> {
    list.filter(|c: CommandView| c is ClaimX11 || c is ClaimWayland)
}

/// The claim that a copy calls for, as the `n`th change of ownership.
pub open spec fn claim_for(copy: CopyView, n: nat) -> CommandView {
    match copy {
        CopyView::Wayland(types) => CommandView::ClaimX11(n),
        CopyView::X11(types) => CommandView::ClaimWayland(n, types),
    }
}

/// A copy makes exactly one claim, on the other side.
proof fn copy_makes_one_claim(broker: BrokerView, copy: CopyView)
    requires
        copy matches CopyView::X11(types) ==> types.len() > 0,
    ensures
        broker.after_copy(copy).epoch == broker.epoch + 1,
        claims(broker.copy_asks(copy)) == seq![claim_for(copy, broker.epoch + 1)],
{
    reveal(Seq::filter);
    let pick = |c: CommandView| c is ClaimX11 || c is ClaimWayland;
    let claim = claim_for(copy, broker.epoch + 1);
    let none = Seq::<CommandView>::empty();
    assert(none.filter(pick) =~= none);
    match copy {
        CopyView::Wayland(types) => {
            assert(broker.copy_asks(copy) =~= none.push(claim));
            assert(none.push(claim).drop_last() =~= none);
            assert(none.push(claim).filter(pick) =~= none.push(claim));
        },
        CopyView::X11(types) => {
            let fetch = CommandView::FetchX11Targets(broker.epoch + 1);
            assert(broker.copy_asks(copy) =~= none.push(fetch).push(claim));
            assert(none.push(fetch).drop_last() =~= none);
            assert(none.push(fetch).filter(pick) =~= none);
            assert(none.push(fetch).push(claim).drop_last() =~= none.push(fetch));
            assert(none.push(fetch).push(claim).filter(pick) =~= none.push(claim));
        },
    }
}

/// A row of copies, on whichever sides and of whatever content, makes exactly
/// one claim per copy, on the other side, in their order. Copies of the same
/// content count like any other.
#[verifier::spinoff_prover]
#[verifier::rlimit(30)]
pub proof fn every_copy_makes_one_claim(broker: BrokerView, copies: Seq<CopyView>)
    requires
        forall|i: int|
            0 <= i < copies.len() ==> (#[trigger] copies[i] matches CopyView::X11(types)
                ==> types.len() > 0),
    ensures
        broker.after_copies(copies).epoch == broker.epoch + copies.len(),
        claims(broker.copies_ask(copies)) == Seq::new(
            copies.len(),
            |i: int| claim_for(copies[i], (broker.epoch + 1 + i) as nat),
        ),
    decreases copies.len(),
{
    if copies.len() == 0 {
        reveal(Seq::filter);
        assert(claims(broker.copies_ask(copies)) =~= seq![]);
    } else {
        let front = copies.drop_last();
        assert forall|i: int| 0 <= i < front.len() implies (
        #[trigger] front[i] matches CopyView::X11(types) ==> types.len() > 0) by {
            assert(front[i] == copies[i]);
        }
        every_copy_makes_one_claim(broker, front);
        let here = broker.after_copies(front);
        let last = copies.last();
        assert(copies[copies.len() - 1] == last);
        copy_makes_one_claim(here, last);
        Seq::filter_distributes_over_add(
            broker.copies_ask(front),
            here.copy_asks(last),
            |c: CommandView| c is ClaimX11 || c is ClaimWayland,
        );
        assert(claims(broker.copies_ask(copies)) == claims(broker.copies_ask(front)) + claims(
            here.copy_asks(last),
        ));
        let before = Seq::new(
            front.len(),
            |i: int| claim_for(front[i], (broker.epoch + 1 + i) as nat),
        );
        let all = Seq::new(
            copies.len(),
            |i: int| claim_for(copies[i], (broker.epoch + 1 + i) as nat),
        );
        assert(claims(here.copy_asks(last)) == seq![claim_for(last, here.epoch + 1)]);
        assert(before + seq![claim_for(last, here.epoch + 1)] =~= all);
    }
}

/// Each event leaves the broker in one state and asks for one thing at most. A
/// Wayland owner is claimed for on the X11 side. One that leaves has that claim
/// released, if there was one. An X11 owner is asked for its targets, which are
/// claimed for on the Wayland side if there are any; an owner that leaves, or
/// has none, has that claim released. A claim that is lost is over.
pub proof fn events_have_their_effect(broker: BrokerView, types: Seq<Seq<char>>)
    ensures
        ({
            let event = EventView::WaylandSelection(types);
            &&& broker.after(event) == BrokerView {
                state: StateView::WaylandApp(types),
                epoch: broker.epoch + 1,
            }
            &&& broker.asks(event) == seq![CommandView::ClaimX11(broker.epoch + 1)]
        }),
        ({
            let event = EventView::WaylandCleared;
            &&& broker.after(event) == BrokerView { state: StateView::Idle, epoch: broker.epoch + 1 }
            &&& broker.state is WaylandApp ==> broker.asks(event) == seq![CommandView::ReleaseX11]
            &&& !(broker.state is WaylandApp) ==> broker.asks(event).len() == 0
        }),
        ({
            let event = EventView::X11Selection;
            &&& broker.after(event) == BrokerView {
                state: StateView::X11App(seq![]),
                epoch: broker.epoch + 1,
            }
            &&& broker.asks(event) == seq![CommandView::FetchX11Targets(broker.epoch + 1)]
        }),
        ({
            let event = EventView::X11Targets(broker.epoch, types);
            &&& broker.state is X11App && types.len() > 0 ==> broker.after(event) == BrokerView {
                state: StateView::X11App(types),
                epoch: broker.epoch,
            } && broker.asks(event) == seq![CommandView::ClaimWayland(broker.epoch, types)]
            &&& broker.state is X11App && types.len() == 0 ==> broker.after(event) == BrokerView {
                state: StateView::Idle,
                epoch: broker.epoch,
            } && broker.asks(event) == seq![CommandView::ReleaseWayland]
            &&& !(broker.state is X11App) ==> broker.after(event) == broker && broker.asks(
                event,
            ).len() == 0
        }),
        ({
            let event = EventView::X11Cleared;
            &&& broker.state is X11App ==> broker.after(event) == BrokerView {
                state: StateView::Idle,
                epoch: broker.epoch + 1,
            } && broker.asks(event) == seq![CommandView::ReleaseWayland]
            &&& !(broker.state is X11App) ==> broker.after(event) == broker && broker.asks(
                event,
            ).len() == 0
        }),
        ({
            let event = EventView::X11Lost;
            &&& broker.after(event) == BrokerView { state: StateView::Idle, epoch: broker.epoch + 1 }
            &&& broker.asks(event).len() == 0
        }),
        BrokerView::initial() == (BrokerView { state: StateView::Idle, epoch: 0 }),
{
}

/// The broker takes an event and hands out its commands, each as it is.
pub proof fn the_broker_takes_events(broker: &mut Broker, event: Event, asked: Vec<Command>, i: int)
    requires
        call_ensures(Broker::handle, (broker, event), asked),
    ensures
        final(broker)@ == old(broker)@.after(event@),
        asked@.len() == old(broker)@.asks(event@).len(),
        0 <= i < asked@.len() ==> asked@[i]@ == old(broker)@.asks(event@)[i],
{
    assert(commands(asked@).len() == asked@.len());
    if 0 <= i < asked@.len() {
        assert(commands(asked@)[i] == asked@[i]@);
    }
}

/// States, events and commands say of themselves what they hold.
pub proof fn brokers_say_what_they_hold(types: Vec<String>, epoch: u64)
    ensures
        State::Idle@ is Idle,
        (State::WaylandApp { mime_types: types })@ == StateView::WaylandApp(text::texts(types@)),
        (State::X11App { mime_types: types })@ == StateView::X11App(text::texts(types@)),
        (Event::WaylandSelection { mime_types: types })@ == EventView::WaylandSelection(
            text::texts(types@),
        ),
        Event::WaylandCleared@ is WaylandCleared,
        Event::X11Selection@ is X11Selection,
        (Event::X11Targets { epoch, mime_types: types })@ == EventView::X11Targets(
            epoch as nat,
            text::texts(types@),
        ),
        Event::X11Cleared@ is X11Cleared,
        Event::X11Lost@ is X11Lost,
        (Command::ClaimX11 { epoch })@ == CommandView::ClaimX11(epoch as nat),
        Command::ReleaseX11@ is ReleaseX11,
        (Command::FetchX11Targets { epoch })@ == CommandView::FetchX11Targets(epoch as nat),
        (Command::ClaimWayland { epoch, mime_types: types })@ == CommandView::ClaimWayland(
            epoch as nat,
            text::texts(types@),
        ),
        Command::ReleaseWayland@ is ReleaseWayland,
{
}

} // verus!
