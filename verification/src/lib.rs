//! clipferry: a lazy, event-driven X11 <-> Wayland clipboard bridge.
//!
//! The library holds every decision the bridge takes, as state machines and
//! functions on plain values; sockets, pipes, timers and threads live around
//! it. Events go in, actions come out.

use vstd::prelude::*;

pub mod action;
pub mod app;
pub mod broker;
pub mod cli;
pub mod laws;
pub mod logging;
pub mod mime;
pub mod payload;
pub mod routes;
pub mod sandbox;
pub mod selection;
pub mod steps;
pub mod text;
pub mod transfer;
pub mod wayland;
pub mod x11;

verus! {

/// Which selection a piece of state belongs to. PRIMARY is opt-in.
#[derive(Debug, Clone, Copy, PartialEq, Eq, Structural)]
pub enum SelKind {
    Clipboard,
    Primary,
}

/// The position of a selection's state.
pub open spec fn position(kind: SelKind) -> int {
    match kind {
        SelKind::Clipboard => 0,
        SelKind::Primary => 1,
    }
}

impl SelKind {
    pub const ALL: [SelKind; 2] = [SelKind::Clipboard, SelKind::Primary];

    /// The position of this selection's state.
    pub fn idx(self) -> (r: usize)
        ensures
            r == position(self),
    {
        match self {
            SelKind::Clipboard => 0,
            SelKind::Primary => 1,
        }
    }

    /// The X11 name.
    pub fn label(self) -> (r: &'static str)
        ensures
            r@ == (match self {
                SelKind::Clipboard => "CLIPBOARD"@,
                SelKind::Primary => "PRIMARY"@,
            }),
    {
        match self {
            SelKind::Clipboard => "CLIPBOARD",
            SelKind::Primary => "PRIMARY",
        }
    }

    /// The logfmt field value (`sel=`).
    pub fn key(self) -> (r: &'static str)
        ensures
            r@ == (match self {
                SelKind::Clipboard => "clipboard"@,
                SelKind::Primary => "primary"@,
            }),
    {
        match self {
            SelKind::Clipboard => "clipboard",
            SelKind::Primary => "primary",
        }
    }
}

pub const NAME: &'static str = "clipferry";

pub const VERSION: &'static str = "0.0.2";

/// The two selections are told apart by their places, by their X11 names and in
/// the log.
pub proof fn selections_are_told_apart(
    first: usize,
    second: usize,
    first_label: &'static str,
    second_label: &'static str,
    first_key: &'static str,
    second_key: &'static str,
)
    requires
        call_ensures(SelKind::idx, (SelKind::Clipboard,), first),
        call_ensures(SelKind::idx, (SelKind::Primary,), second),
        call_ensures(SelKind::label, (SelKind::Clipboard,), first_label),
        call_ensures(SelKind::label, (SelKind::Primary,), second_label),
        call_ensures(SelKind::key, (SelKind::Clipboard,), first_key),
        call_ensures(SelKind::key, (SelKind::Primary,), second_key),
    ensures
        first == 0 && second == 1,
        SelKind::ALL[first as int] == SelKind::Clipboard,
        SelKind::ALL[second as int] == SelKind::Primary,
        first_label@ == "CLIPBOARD"@ && second_label@ == "PRIMARY"@,
        first_key@ == "clipboard"@ && second_key@ == "primary"@,
{
}

/// The bridge goes by its name and its version wherever it says them.
pub proof fn the_bridge_has_a_name()
    ensures
        NAME@ == "clipferry"@,
        VERSION@ == "0.0.2"@,
        cli::VERSION_LINE@ == NAME@ + " "@ + VERSION@ + "\n"@,
{
    reveal_strlit("clipferry");
    reveal_strlit("0.0.2");
    reveal_strlit(" ");
    reveal_strlit("\n");
    reveal_strlit("clipferry 0.0.2\n");
    assert(cli::VERSION_LINE@ =~= NAME@ + " "@ + VERSION@ + "\n"@);
}

} // verus!
