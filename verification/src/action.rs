//! What the bridge asks its surroundings to do, and what it works with while
//! it decides.

use std::sync::Arc;

use vstd::prelude::*;

use crate::cli::SyncMode;
use crate::mime::Transform;
use crate::payload::{Snapshot, SnapshotView};
use crate::text;
use crate::transfer;
use crate::transfer::{Conv, PasteReply, X2wRequest};
use crate::x11::{SelectionNotify, SelectionRequest, X11};
use crate::SelKind;

verus! {

/// How long PRIMARY owner changes are debounced, in milliseconds. Dragging
/// over text changes the owner all the time; only the settled one matters.
pub const PRIMARY_DEBOUNCE_MS: u64 = 50;

/// After a copy on one side, how long the other side gets to update by itself
/// before the bridge fills the gap, in milliseconds.
pub const GAP_WINDOW_MS: u64 = 200;

/// What does not change from event to event: the connection and the settings.
#[derive(Debug, Clone, Copy)]
pub struct Env {
    pub x11: X11,
    /// The window that another bridge's X11 claims come from.
    pub wm_window: Option<u32>,
    /// The event loop runs: timers can be set and captures can report back.
    pub running: bool,
    /// PRIMARY is bridged too.
    pub primary: bool,
    pub skip_sensitive: bool,
    pub sync_mode: SyncMode,
    /// Claim at once instead of filling gaps only.
    pub aggressive_claims: bool,
    /// The most that is captured of one type.
    pub eager_max: Option<usize>,
    /// Seconds without progress before a transfer is given up.
    pub transfer_timeout: Option<u64>,
}

/// What is known of a paste: the request, and how to answer it.
#[derive(Debug)]
pub struct Paste {
    pub req: SelectionRequest,
    pub property: u32,
    pub mime: String,
    pub reply_type: u32,
    pub conversion: Conv,
    pub transform: Transform,
}

/// The paste, with its type as text.
#[verifier::ext_equal]
pub struct PasteView {
    pub req: SelectionRequest,
    pub property: u32,
    pub mime: Seq<char>,
    pub reply_type: u32,
    pub conversion: Conv,
    pub transform: Transform,
}

impl View for Paste {
    type V = PasteView;

    open spec fn view(&self) -> PasteView {
        PasteView {
            req: self.req,
            property: self.property,
            mime: self.mime@,
            reply_type: self.reply_type,
            conversion: self.conversion,
            transform: self.transform,
        }
    }
}

/// The reply to a paste, with its type as text.
#[verifier::ext_equal]
pub struct ReplyView {
    pub kind: SelKind,
    pub paste: PasteView,
    pub timeout: Option<u64>,
}

impl View for PasteReply {
    type V = ReplyView;

    open spec fn view(&self) -> ReplyView {
        ReplyView {
            kind: self.kind,
            paste: PasteView {
                req: self.req,
                property: self.property,
                mime: self.mime@,
                reply_type: self.reply_type,
                conversion: self.conversion,
                transform: self.transform,
            },
            timeout: self.timeout,
        }
    }
}

/// A read from the X11 owner, with its names as texts.
#[verifier::ext_equal]
pub struct ReadView {
    pub kind: SelKind,
    pub mime: Seq<char>,
    pub plan: Option<(Seq<char>, Transform)>,
    pub timeout: Option<u64>,
}

impl View for X2wRequest {
    type V = ReadView;

    open spec fn view(&self) -> ReadView {
        ReadView {
            kind: self.kind,
            mime: self.mime@,
            plan: transfer::plan_view(self.plan),
            timeout: self.timeout,
        }
    }
}

/// The reads of a list, one by one.
pub open spec fn reads(list: Seq<X2wRequest>) -> Seq<ReadView> {
    list.map_values(|r: X2wRequest| r@)
}

/// What the bridge asks for.
pub enum Action {
    /// Destroy a Wayland offer.
    DestroyOffer(u64),
    /// Destroy a Wayland data source of the bridge.
    DestroySource { kind: SelKind, source: u64 },
    /// Report back when the gap window has passed.
    ArmGapTimer(SelKind),
    /// Report back, with this number, when the debounce time has passed.
    ArmPrimaryTimer(u64),
    /// Intern these names and report their atoms.
    InternTargets { kind: SelKind, epoch: u64, names: Vec<String> },
    /// Ask a Wayland offer for all these types and report when they are on
    /// their way.
    Capture { kind: SelKind, epoch: u64, offer: u64, mime_types: Vec<String> },
    /// Take the X11 selection and report who owns it then.
    ClaimX11(SelKind),
    /// Take the X11 selection back and report who owns it then.
    ReclaimX11(SelKind),
    /// Give up the X11 selection that was taken at this time.
    ReleaseX11 { kind: SelKind, time: u32 },
    /// Ask the X11 owner for its targets.
    FetchTargets(SelKind),
    /// Read the targets that the X11 owner sent and report their names.
    ReadTargets { kind: SelKind, epoch: u64 },
    /// Take the Wayland selection with a new data source.
    ClaimWayland { kind: SelKind, source: u64, mime_types: Vec<String> },
    /// Read all these types from the X11 owner and report the snapshot.
    EagerFetch { kind: SelKind, epoch: u64, reads: Vec<X2wRequest> },
    /// Give up the Wayland selection and destroy its data source.
    ReleaseWayland { kind: SelKind, source: u64 },
    /// Send this answer to a requestor.
    Notify(SelectionNotify),
    /// Write these values to a requestor's property and answer.
    ReplyAtoms { req: SelectionRequest, property: u32, type_: u32, values: Vec<u32> },
    /// Serve a paste from memory.
    ServeSnapshot { reply: PasteReply, snapshot: Arc<Snapshot> },
    /// Serve a paste from a Wayland offer.
    ReadOffer { reply: PasteReply, offer: u64 },
    /// Keep a snapshot out of swap.
    LockSnapshot(Arc<Snapshot>),
    /// Leave the event loop.
    Stop,
}

/// The action, with names as texts.
#[verifier::ext_equal]
pub enum ActionView {
    DestroyOffer(u64),
    DestroySource(SelKind, nat),
    ArmGapTimer(SelKind),
    ArmPrimaryTimer(nat),
    InternTargets(SelKind, nat, Seq<Seq<char>>),
    Capture(SelKind, nat, u64, Seq<Seq<char>>),
    ClaimX11(SelKind),
    ReclaimX11(SelKind),
    ReleaseX11(SelKind, u32),
    FetchTargets(SelKind),
    ReadTargets(SelKind, nat),
    ClaimWayland(SelKind, nat, Seq<Seq<char>>),
    EagerFetch(SelKind, nat, Seq<ReadView>),
    ReleaseWayland(SelKind, nat),
    Notify(SelectionNotify),
    ReplyAtoms(SelectionRequest, u32, u32, Seq<u32>),
    ServeSnapshot(ReplyView, SnapshotView),
    ReadOffer(ReplyView, u64),
    LockSnapshot(SnapshotView),
    Stop,
}

impl View for Action {
    type V = ActionView;

    open spec fn view(&self) -> ActionView {
        match *self {
            Action::DestroyOffer(offer) => ActionView::DestroyOffer(offer),
            Action::DestroySource { kind, source } => ActionView::DestroySource(
                kind,
                source as nat,
            ),
            Action::ArmGapTimer(kind) => ActionView::ArmGapTimer(kind),
            Action::ArmPrimaryTimer(generation) => ActionView::ArmPrimaryTimer(generation as nat),
            Action::InternTargets { kind, epoch, names } => ActionView::InternTargets(
                kind,
                epoch as nat,
                text::texts(names@),
            ),
            Action::Capture { kind, epoch, offer, mime_types } => ActionView::Capture(
                kind,
                epoch as nat,
                offer,
                text::texts(mime_types@),
            ),
            Action::ClaimX11(kind) => ActionView::ClaimX11(kind),
            Action::ReclaimX11(kind) => ActionView::ReclaimX11(kind),
            Action::ReleaseX11 { kind, time } => ActionView::ReleaseX11(kind, time),
            Action::FetchTargets(kind) => ActionView::FetchTargets(kind),
            Action::ReadTargets { kind, epoch } => ActionView::ReadTargets(kind, epoch as nat),
            Action::ClaimWayland { kind, source, mime_types } => ActionView::ClaimWayland(
                kind,
                source as nat,
                text::texts(mime_types@),
            ),
            Action::EagerFetch { kind, epoch, reads } => ActionView::EagerFetch(
                kind,
                epoch as nat,
                self::reads(reads@),
            ),
            Action::ReleaseWayland { kind, source } => ActionView::ReleaseWayland(
                kind,
                source as nat,
            ),
            Action::Notify(notify) => ActionView::Notify(notify),
            Action::ReplyAtoms { req, property, type_, values } => ActionView::ReplyAtoms(
                req,
                property,
                type_,
                values@,
            ),
            Action::ServeSnapshot { reply, snapshot } => ActionView::ServeSnapshot(
                reply@,
                snapshot@,
            ),
            Action::ReadOffer { reply, offer } => ActionView::ReadOffer(reply@, offer),
            Action::LockSnapshot(snapshot) => ActionView::LockSnapshot(snapshot@),
            Action::Stop => ActionView::Stop,
        }
    }
}

/// The actions of a list, one by one.
pub open spec fn acts(list: Seq<Action>) -> Seq<ActionView> {
    list.map_values(|a: Action| a@)
}

/// Appending an action appends what it asks for.
pub broadcast proof fn acts_push(list: Seq<Action>, action: Action)
    ensures
        #[trigger] acts(list.push(action)) == acts(list).push(action@),
{
    assert(acts(list.push(action)) =~= acts(list).push(action@));
}

/// What is asked for is what the action says, argument by argument.
pub proof fn actions_say_what_is_asked(action: Action)
    ensures
        match action {
            Action::DestroyOffer(offer) => action@ == ActionView::DestroyOffer(offer),
            Action::DestroySource { kind, source } => action@ == ActionView::DestroySource(
                kind,
                source as nat,
            ),
            Action::ArmGapTimer(kind) => action@ == ActionView::ArmGapTimer(kind),
            Action::ArmPrimaryTimer(number) => action@ == ActionView::ArmPrimaryTimer(
                number as nat,
            ),
            Action::InternTargets { kind, epoch, names } => {
                &&& action@ matches ActionView::InternTargets(k, e, list)
                &&& k == kind && e == epoch && list.len() == names@.len()
                &&& forall|i: int| 0 <= i < names@.len() ==> #[trigger] list[i] == names@[i]@
            },
            Action::Capture { kind, epoch, offer, mime_types } => {
                &&& action@ matches ActionView::Capture(k, e, o, list)
                &&& k == kind && e == epoch && o == offer && list.len() == mime_types@.len()
                &&& forall|i: int|
                    0 <= i < mime_types@.len() ==> #[trigger] list[i] == mime_types@[i]@
            },
            Action::ClaimX11(kind) => action@ == ActionView::ClaimX11(kind),
            Action::ReclaimX11(kind) => action@ == ActionView::ReclaimX11(kind),
            Action::ReleaseX11 { kind, time } => action@ == ActionView::ReleaseX11(kind, time),
            Action::FetchTargets(kind) => action@ == ActionView::FetchTargets(kind),
            Action::ReadTargets { kind, epoch } => action@ == ActionView::ReadTargets(
                kind,
                epoch as nat,
            ),
            Action::ClaimWayland { kind, source, mime_types } => {
                &&& action@ matches ActionView::ClaimWayland(k, s, list)
                &&& k == kind && s == source && list.len() == mime_types@.len()
                &&& forall|i: int|
                    0 <= i < mime_types@.len() ==> #[trigger] list[i] == mime_types@[i]@
            },
            Action::EagerFetch { kind, epoch, reads } => {
                &&& action@ matches ActionView::EagerFetch(k, e, list)
                &&& k == kind && e == epoch && list.len() == reads@.len()
                &&& forall|i: int| 0 <= i < reads@.len() ==> #[trigger] list[i] == reads@[i]@
            },
            Action::ReleaseWayland { kind, source } => action@ == ActionView::ReleaseWayland(
                kind,
                source as nat,
            ),
            Action::Notify(notify) => action@ == ActionView::Notify(notify),
            Action::ReplyAtoms { req, property, type_, values } => action@
                == ActionView::ReplyAtoms(req, property, type_, values@),
            Action::ServeSnapshot { reply, snapshot } => action@ == ActionView::ServeSnapshot(
                reply@,
                snapshot@,
            ),
            Action::ReadOffer { reply, offer } => action@ == ActionView::ReadOffer(reply@, offer),
            Action::LockSnapshot(snapshot) => action@ == ActionView::LockSnapshot(snapshot@),
            Action::Stop => action@ == ActionView::Stop,
        },
{
}

/// A paste, its reply and a read say of themselves what they hold.
pub proof fn transfers_say_what_they_hold(paste: Paste, reply: PasteReply, read: X2wRequest)
    ensures
        paste@.req == paste.req && paste@.property == paste.property && paste@.mime == paste.mime@,
        paste@.reply_type == paste.reply_type && paste@.conversion == paste.conversion
            && paste@.transform == paste.transform,
        reply@.kind == reply.kind && reply@.timeout == reply.timeout,
        reply@.paste.req == reply.req && reply@.paste.property == reply.property,
        reply@.paste.mime == reply.mime@ && reply@.paste.reply_type == reply.reply_type,
        reply@.paste.conversion == reply.conversion && reply@.paste.transform == reply.transform,
        read@.kind == read.kind && read@.mime == read.mime@ && read@.timeout == read.timeout,
        read.plan is None ==> read@.plan is None,
        read.plan matches Some((target, transform)) ==> read@.plan == Some((target@, transform)),
{
}

/// A list of actions asks for each in turn.
pub proof fn lists_ask_in_order(list: Seq<Action>, requests: Seq<X2wRequest>, i: int)
    ensures
        acts(list).len() == list.len(),
        0 <= i < list.len() ==> acts(list)[i] == list[i]@,
        reads(requests).len() == requests.len(),
        0 <= i < requests.len() ==> reads(requests)[i] == requests[i]@,
{
}

/// PRIMARY settles for a twentieth of a second, and a copy waits a fifth of a
/// second for the other side.
pub proof fn waits_are_short()
    ensures
        PRIMARY_DEBOUNCE_MS == 50,
        GAP_WINDOW_MS == 200,
{
}

} // verus!
