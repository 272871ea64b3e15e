//! The sandbox that the process puts itself into: which files stay readable,
//! and what the self-test makes of what it sees.

use vstd::prelude::*;

use crate::text;

verus! {

/// How far a Landlock ruleset is enforced.
#[derive(Debug, Clone, Copy, PartialEq, Eq, Structural)]
pub enum RulesetStatus {
    FullyEnforced,
    PartiallyEnforced,
    NotEnforced,
}

/// A path with a file name behind it.
pub open spec fn joined_path(dir: Seq<char>, name: Seq<char>) -> Seq<char> {
    if dir.len() == 0 || dir.last() == '/' {
        dir + name
    } else {
        dir + "/"@ + name
    }
}

fn join(dir: &str, name: &str) -> (r: String)
    ensures
        r@ == joined_path(dir@, name@),
{
    let n = dir.unicode_len();
    let mut out = dir.to_owned();
    if n > 0 && dir.get_char(n - 1) != '/' {
        out.append("/");
    }
    out.append(name);
    out
}

/// The candidates, in order.
pub open spec fn candidates(xauthority: Option<String>, home: Option<&str>) -> Seq<Seq<char>> {
    (match xauthority {
        Some(file) => seq![file@],
        None => seq![],
    }) + (match home {
        Some(dir) => seq![joined_path(dir@, ".Xauthority"@)],
        None => seq![],
    })
}

/// The files that may hold the X authority: the one that the environment
/// names, and the one in the home directory. Only those that exist stay
/// readable.
pub fn xauthority_candidates(xauthority: Option<String>, home: Option<&str>) -> (r: Vec<String>)
    ensures
        text::texts(r@) == candidates(xauthority, home),
{
    let mut paths: Vec<String> = Vec::new();
    let ghost wanted = candidates(xauthority, home);
    if let Some(file) = xauthority {
        paths.push(file);
    }
    if let Some(dir) = home {
        paths.push(join(dir, ".Xauthority"));
    }
    assert(text::texts(paths@) =~= wanted);
    paths
}

/// What to say about the sandbox.
#[derive(Debug, Clone, Copy, PartialEq, Eq, Structural)]
pub enum Report {
    /// It was switched off.
    Disabled,
    /// Filesystem and TCP are denied.
    Enforced,
    /// The kernel is too old for all of it.
    Partial,
    /// The kernel has none of it.
    Unavailable,
    /// It could not be applied.
    Failed,
}

/// What to say about the sandbox, given whether it was switched off and how
/// far it was enforced, if it could be applied.
pub fn report(disabled: bool, status: Option<RulesetStatus>) -> (r: Report)
    ensures
        r == (if disabled {
            Report::Disabled
        } else {
            match status {
                Some(RulesetStatus::FullyEnforced) => Report::Enforced,
                Some(RulesetStatus::PartiallyEnforced) => Report::Partial,
                Some(RulesetStatus::NotEnforced) => Report::Unavailable,
                None => Report::Failed,
            }
        }),
{
    if disabled {
        return Report::Disabled;
    }
    match status {
        Some(RulesetStatus::FullyEnforced) => Report::Enforced,
        Some(RulesetStatus::PartiallyEnforced) => Report::Partial,
        Some(RulesetStatus::NotEnforced) => Report::Unavailable,
        None => Report::Failed,
    }
}

/// What the self-test comes to.
#[derive(Debug, Clone, Copy, PartialEq, Eq, Structural)]
pub enum SelftestVerdict {
    /// The kernel has no sandbox, so there is nothing to assert.
    Unsupported,
    Passed,
    Failed,
}

/// Judges the self-test. The TCP assertion needs a newer kernel than the rest:
/// where enforcement is partial, the others suffice.
pub fn selftest_verdict(
    status: RulesetStatus,
    fs_denied: bool,
    tcp_denied: bool,
    not_dumpable: bool,
) -> (r: SelftestVerdict)
    ensures
        r == (if status is NotEnforced {
            SelftestVerdict::Unsupported
        } else if fs_denied && not_dumpable && (tcp_denied || status is PartiallyEnforced) {
            SelftestVerdict::Passed
        } else {
            SelftestVerdict::Failed
        }),
{
    match status {
        RulesetStatus::NotEnforced => SelftestVerdict::Unsupported,
        RulesetStatus::FullyEnforced => if fs_denied && tcp_denied && not_dumpable {
            SelftestVerdict::Passed
        } else {
            SelftestVerdict::Failed
        },
        RulesetStatus::PartiallyEnforced => if fs_denied && not_dumpable {
            SelftestVerdict::Passed
        } else {
            SelftestVerdict::Failed
        },
    }
}

/// The files that may hold the X11 cookie: the one that the variable names,
/// then `.Xauthority` in the home directory, each where it is known.
pub proof fn cookies_are_looked_for_in_order(
    file: String,
    home: &str,
    none: Option<String>,
)
    requires
        none is None,
        home@.len() > 0,
        home@.last() != '/',
    ensures
        candidates(Some(file), Some(home)) == seq![file@, home@ + "/"@ + ".Xauthority"@],
        candidates(Some(file), None) == seq![file@],
        candidates(none, Some(home)) == seq![home@ + "/"@ + ".Xauthority"@],
        candidates(none, None).len() == 0,
{
}

/// A directory and a name are joined by one slash.
pub proof fn paths_are_joined_by_one_slash(dir: Seq<char>, name: Seq<char>)
    requires
        dir.len() > 0,
        dir.last() != '/',
    ensures
        joined_path(dir, name) == dir + seq!['/'] + name,
        joined_path(dir.push('/'), name) == dir + seq!['/'] + name,
        joined_path(Seq::empty(), name) == name,
{
    reveal_strlit("/");
    assert("/"@ =~= seq!['/']);
    assert(dir.push('/') =~= dir + seq!['/']);
}

/// What became of the sandbox is reported as it is.
pub proof fn the_sandbox_is_reported_as_it_is(
    off: Report,
    any: Option<RulesetStatus>,
    full: Report,
    partial: Report,
    missing: Report,
    failed: Report,
)
    requires
        call_ensures(report, (true, any), off),
        call_ensures(report, (false, Some(RulesetStatus::FullyEnforced)), full),
        call_ensures(report, (false, Some(RulesetStatus::PartiallyEnforced)), partial),
        call_ensures(report, (false, Some(RulesetStatus::NotEnforced)), missing),
        call_ensures(report, (false, None), failed),
    ensures
        off is Disabled,
        full is Enforced,
        partial is Partial,
        missing is Unavailable,
        failed is Failed,
{
}

/// The self test passes only where the sandbox denies files and the process
/// cannot be dumped; connections too must be denied where all rules hold.
pub proof fn the_selftest_passes_where_the_sandbox_holds(
    status: RulesetStatus,
    fs_denied: bool,
    tcp_denied: bool,
    not_dumpable: bool,
    verdict: SelftestVerdict,
)
    requires
        call_ensures(selftest_verdict, (status, fs_denied, tcp_denied, not_dumpable), verdict),
    ensures
        verdict is Unsupported <==> status is NotEnforced,
        verdict is Passed ==> fs_denied && not_dumpable,
        verdict is Passed && status is FullyEnforced ==> tcp_denied,
        fs_denied && not_dumpable && tcp_denied && !(status is NotEnforced) ==> verdict is Passed,
        fs_denied && not_dumpable && status is PartiallyEnforced ==> verdict is Passed,
{
}

/// The files that are looked for are handed out as they are stated.
pub proof fn cookie_files_are_listed(
    xauthority: Option<String>,
    home: Option<&str>,
    files: Vec<String>,
    i: int,
)
    requires
        call_ensures(xauthority_candidates, (xauthority, home), files),
    ensures
        files@.len() == candidates(xauthority, home).len(),
        0 <= i < files@.len() ==> files@[i]@ == candidates(xauthority, home)[i],
{
    let list = text::texts(files@);
    assert(list.len() == files@.len());
    if 0 <= i < files@.len() {
        assert(list[i] == files@[i]@);
    }
}

} // verus!
