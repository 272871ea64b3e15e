//! Log lines: logfmt fields on stderr, without timestamps or colors. Under
//! systemd each line carries its journald priority.

use vstd::prelude::*;

use crate::cli::LogLevel;
use crate::text;

verus! {

/// How important a message is.
#[derive(Debug, Clone, Copy, PartialEq, Eq, Structural)]
pub enum Level {
    Error,
    Warn,
    Info,
    Debug,
    Trace,
}

/// How far down a level stands.
pub open spec fn depth(level: Level) -> int {
    match level {
        Level::Error => 1,
        Level::Warn => 2,
        Level::Info => 3,
        Level::Debug => 4,
        Level::Trace => 5,
    }
}

/// How far down is logged.
pub open spec fn reach(filter: LogLevel) -> int {
    match filter {
        LogLevel::Off => 0,
        LogLevel::Error => 1,
        LogLevel::Warn => 2,
        LogLevel::Info => 3,
        LogLevel::Debug => 4,
        LogLevel::Trace => 5,
    }
}

/// True when messages of a level are logged.
pub fn enabled(level: Level, filter: LogLevel) -> (r: bool)
    ensures
        r == (depth(level) <= reach(filter)),
{
    match filter {
        LogLevel::Off => false,
        LogLevel::Error => level == Level::Error,
        LogLevel::Warn => level == Level::Error || level == Level::Warn,
        LogLevel::Info => level != Level::Debug && level != Level::Trace,
        LogLevel::Debug => level != Level::Trace,
        LogLevel::Trace => true,
    }
}

/// The name of a level.
pub open spec fn level_name(level: Level) -> Seq<char> {
    match level {
        Level::Error => "error"@,
        Level::Warn => "warn"@,
        Level::Info => "info"@,
        Level::Debug => "debug"@,
        Level::Trace => "trace"@,
    }
}

/// The prefix that tells journald the priority of a line.
pub open spec fn priority_prefix(level: Level) -> Seq<char> {
    match level {
        Level::Error => "<3>"@,
        Level::Warn => "<4>"@,
        Level::Info => "<6>"@,
        Level::Debug => "<7>"@,
        Level::Trace => "<7>"@,
    }
}

/// The line that logs a message.
pub open spec fn log_line(level: Level, message: Seq<char>, journal: bool) -> Seq<char> {
    (if journal {
        priority_prefix(level)
    } else {
        seq![]
    }) + "level="@ + level_name(level) + " "@ + message
}

/// Formats a message; `journal` says whether journald reads the line.
pub fn format_line(level: Level, message: &str, journal: bool) -> (r: String)
    ensures
        r@ == log_line(level, message@, journal),
{
    let (prefix, name) = match level {
        Level::Error => ("<3>", "error"),
        Level::Warn => ("<4>", "warn"),
        Level::Info => ("<6>", "info"),
        Level::Debug => ("<7>", "debug"),
        Level::Trace => ("<7>", "trace"),
    };
    proof {
        reveal_strlit("");
    }
    let mut out = if journal {
        prefix.to_owned()
    } else {
        "".to_owned()
    };
    out.append("level=");
    out.append(name);
    out.append(" ");
    out.append(message);
    assert(out@ =~= log_line(level, message@, journal));
    out
}

/// The text is two numbers with a colon between them: the device and the
/// inode of the stream that journald reads.
pub open spec fn names_stream(text: Seq<char>, device: nat, inode: nat) -> bool {
    exists|i: int|
        {
            &&& 0 <= i < text.len()
            &&& #[trigger] text[i] == ':'
            &&& text::number(text.take(i)) == Some(device)
            &&& text::number(text.skip(i + 1)) == Some(inode)
        }
}

/// True when the stream with this device and inode is the one that journald
/// said it reads. An environment that was passed on names another stream.
pub fn is_journal_stream(value: Option<&str>, device: u64, inode: u64) -> (r: bool)
    ensures
        r == (value matches Some(v) && names_stream(v@, device as nat, inode as nat)),
{
    let v = match value {
        Some(v) => v,
        None => {
            return false;
        },
    };
    let chars = text::characters(v);
    for i in 0..chars.len()
        invariant
            value == Some(v),
            chars@ == v@,
            forall|j: int|
                0 <= j < i && v@[j] == ':' ==> !(text::number(v@.take(j)) == Some(device as nat)
                    && text::number(#[trigger] v@.skip(j + 1)) == Some(inode as nat)),
    {
        if chars[i] == ':' {
            let head = vstd::slice::slice_subrange(chars.as_slice(), 0, i);
            let tail = vstd::slice::slice_subrange(chars.as_slice(), i + 1, chars.len());
            assert(head@ =~= v@.take(i as int));
            assert(tail@ =~= v@.skip(i + 1));
            let dev = text::parse_number(head);
            let ino = text::parse_number(tail);
            let matches_dev = match dev {
                Some(n) => n == device,
                None => false,
            };
            let matches_ino = match ino {
                Some(n) => n == inode,
                None => false,
            };
            if matches_dev && matches_ino {
                assert(v@[i as int] == ':');
                return true;
            }
        }
    }
    proof {
        if names_stream(v@, device as nat, inode as nat) {
            let i = choose|i: int|
                {
                    &&& 0 <= i < v@.len()
                    &&& #[trigger] v@[i] == ':'
                    &&& text::number(v@.take(i)) == Some(device as nat)
                    &&& text::number(v@.skip(i + 1)) == Some(inode as nat)
                };
            assert(text::number(v@.skip(i + 1)) == Some(inode as nat));
        }
    }
    false
}

/// A message is logged if the filter lets through its level or a less serious
/// one: errors unless logging is off, traces only where everything is.
pub proof fn filters_let_through_what_is_serious_enough(
    filter: LogLevel,
    error: bool,
    warn: bool,
    info: bool,
    debug: bool,
    trace: bool,
)
    requires
        call_ensures(enabled, (Level::Error, filter), error),
        call_ensures(enabled, (Level::Warn, filter), warn),
        call_ensures(enabled, (Level::Info, filter), info),
        call_ensures(enabled, (Level::Debug, filter), debug),
        call_ensures(enabled, (Level::Trace, filter), trace),
    ensures
        error <==> !(filter is Off),
        warn <==> !(filter is Off || filter is Error),
        info <==> filter is Info || filter is Debug || filter is Trace,
        debug <==> filter is Debug || filter is Trace,
        trace <==> filter is Trace,
{
}

/// A line says its level and then the message, as it is. For the journal the
/// priority of the level stands in front, and nothing else changes.
pub proof fn lines_say_level_and_message(level: Level, message: Seq<char>)
    ensures
        log_line(level, message, false) == "level="@ + (match level {
            Level::Error => "error"@,
            Level::Warn => "warn"@,
            Level::Info => "info"@,
            Level::Debug => "debug"@,
            Level::Trace => "trace"@,
        }) + " "@ + message,
        log_line(level, message, true) == (match level {
            Level::Error => "<3>"@,
            Level::Warn => "<4>"@,
            Level::Info => "<6>"@,
            Level::Debug => "<7>"@,
            Level::Trace => "<7>"@,
        }) + log_line(level, message, false),
{
}

/// The standard error stream is the journal's exactly if the variable names its
/// device and its inode: two numbers with a colon between them.
pub proof fn journals_are_named_by_two_numbers(
    front: Seq<char>,
    back: Seq<char>,
    device: nat,
    inode: nat,
)
    requires
        text::number(front) == Some(device),
        text::number(back) == Some(inode),
    ensures
        names_stream(front.push(':') + back, device, inode),
        forall|d: nat, i: nat| #[trigger]
            names_stream(front.push(':') + back, d, i) ==> d == device && i == inode,
{
    let all = front.push(':') + back;
    let n = front.len() as int;
    assert(all[n] == ':');
    assert(all.take(n) =~= front);
    assert(all.skip(n + 1) =~= back);
    assert forall|d: nat, i: nat| #[trigger] names_stream(all, d, i) implies d == device && i
        == inode by {
        let k = choose|k: int|
            {
                &&& 0 <= k < all.len()
                &&& #[trigger] all[k] == ':'
                &&& text::number(all.take(k)) == Some(d)
                &&& text::number(all.skip(k + 1)) == Some(i)
            };
        if k > n {
            no_colon_in_numbers(all.take(k), n);
        } else if k < n {
            no_colon_in_numbers(all.skip(k + 1), n - k - 1);
        }
    }
}

/// No number holds a colon.
proof fn no_colon_in_numbers(s: Seq<char>, at: int)
    requires
        0 <= at < s.len(),
        s[at] == ':',
    ensures
        text::number(s) is None,
{
    let digits = text::digits_of(s);
    if s[0] == '+' {
        assert(digits[at - 1] == ':');
        assert(!text::is_digit(digits[at - 1]));
    } else {
        assert(!text::is_digit(digits[at]));
    }
}

/// Without the variable the stream is nobody's journal.
pub proof fn no_variable_no_journal(device: u64, inode: u64, r: bool)
    requires
        call_ensures(is_journal_stream, (None, device, inode), r),
    ensures
        !r,
{
}

/// A line is written as it is stated, and a stream is judged by the variable.
pub proof fn lines_are_written_as_stated(
    level: Level,
    message: &str,
    journal: bool,
    line: String,
    value: &str,
    device: u64,
    inode: u64,
    r: bool,
)
    requires
        call_ensures(format_line, (level, message, journal), line),
        call_ensures(is_journal_stream, (Some(value), device, inode), r),
    ensures
        line@ == log_line(level, message@, journal),
        r <==> names_stream(value@, device as nat, inode as nat),
{
}

} // verus!
