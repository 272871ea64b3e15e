//! Command-line options. Every one is safe to omit; without any, the bridge
//! runs as recommended.

use vstd::prelude::*;

use crate::text;

verus! {

/// When payload bytes move.
#[derive(Debug, Clone, Copy, PartialEq, Eq, Default, Structural)]
pub enum SyncMode {
    /// Only when somebody pastes.
    #[default]
    Lazy,
    /// At once, so that the content survives its source.
    Eager,
}

/// How much is logged.
#[derive(Debug, Clone, Copy, PartialEq, Eq, Structural)]
pub enum LogLevel {
    Off,
    Error,
    Warn,
    Info,
    Debug,
    Trace,
}

/// What the command line asks for.
#[derive(Debug, Clone, Copy, PartialEq, Eq, Structural)]
pub struct Options {
    /// Connect to both displays, print a diagnostic, exit.
    pub oneshot_check: bool,
    pub log_level: LogLevel,
    /// Idle timeout in seconds; 0 means none.
    pub transfer_timeout: u64,
    pub sync_mode: SyncMode,
    /// The most that is captured of one type; nothing means no limit.
    pub eager_max_size: Option<usize>,
    /// Also bridge the PRIMARY selection.
    pub primary: bool,
    /// Do not bridge offers that carry the password-manager hint.
    pub skip_sensitive: bool,
    /// Claim selections at once instead of filling gaps only.
    pub aggressive_claims: bool,
    /// Run without the in-process sandbox.
    pub no_landlock: bool,
    /// Apply the sandbox, check that it holds, exit.
    pub sandbox_selftest: bool,
}

/// The snapshot cap where none is given: ten mebibytes.
pub const DEFAULT_EAGER_MAX_SIZE: usize = 10485760;

/// The options of an empty command line.
pub open spec fn default_options() -> Options {
    Options {
        oneshot_check: false,
        log_level: LogLevel::Info,
        transfer_timeout: 0,
        sync_mode: SyncMode::Lazy,
        eager_max_size: Some(DEFAULT_EAGER_MAX_SIZE),
        primary: false,
        skip_sensitive: false,
        aggressive_claims: false,
        no_landlock: false,
        sandbox_selftest: false,
    }
}

impl Default for Options {
    fn default() -> (r: Self)
        ensures
            r == default_options(),
    {
        Options {
            oneshot_check: false,
            log_level: LogLevel::Info,
            transfer_timeout: 0,
            sync_mode: SyncMode::Lazy,
            eager_max_size: Some(DEFAULT_EAGER_MAX_SIZE),
            primary: false,
            skip_sensitive: false,
            aggressive_claims: false,
            no_landlock: false,
            sandbox_selftest: false,
        }
    }
}

/// Why a size is not one.
#[derive(Debug, Clone, Copy, PartialEq, Eq, Structural)]
pub enum SizeError {
    /// It is not a number with an optional suffix, or too long a number.
    Invalid,
    /// It is larger than the machine can count.
    Overflow,
}

/// The factor that a suffix stands for.
pub open spec fn factor(suffix: char) -> Option<nat> {
    if suffix == 'K' || suffix == 'k' {
        Some(1024)
    } else if suffix == 'M' || suffix == 'm' {
        Some(1048576)
    } else if suffix == 'G' || suffix == 'g' {
        Some(1073741824)
    } else {
        None
    }
}

/// The number in front of the suffix, and the factor: one where there is no
/// suffix.
pub open spec fn number_and_factor(s: Seq<char>) -> (Seq<char>, nat) {
    if s.len() > 0 && factor(s.last()) is Some {
        (s.drop_last(), factor(s.last())->0)
    } else {
        (s, 1)
    }
}

/// The size that a text, without white space at its ends, stands for: no
/// limit for `0` and `unlimited`, otherwise the number times the factor.
pub open spec fn size_of(s: Seq<char>) -> Result<Option<nat>, SizeError> {
    if text::same_ignoring_case(s, "unlimited"@) || s == "0"@ {
        Ok(None)
    } else {
        match text::number(number_and_factor(s).0) {
            Some(n) if n <= usize::MAX => if n * number_and_factor(s).1 <= usize::MAX {
                Ok(Some(n * number_and_factor(s).1))
            } else {
                Err(SizeError::Overflow)
            },
            _ => Err(SizeError::Invalid),
        }
    }
}

/// The size as a limit that may be absent.
pub open spec fn as_limit(size: Result<Option<usize>, SizeError>) -> Result<
    Option<nat>,
    SizeError,
> {
    match size {
        Ok(Some(n)) => Ok(Some(n as nat)),
        Ok(None) => Ok(None),
        Err(e) => Err(e),
    }
}

/// Reads a human size: plain bytes, binary `K`/`M`/`G` suffixes, or `0` or
/// `unlimited` for no limit.
pub fn parse_size(text: &str) -> (r: Result<Option<usize>, SizeError>)
    ensures
        as_limit(r) == size_of(text::trimmed(text@)),
{
    let all = text::characters(text);
    let mut t = text::trim(all.as_slice());
    let ghost s = t@;
    let unlimited = text::characters("unlimited");
    if text::equals_ignoring_case(t.as_slice(), unlimited.as_slice()) {
        return Ok(None);
    }
    proof {
        reveal_strlit("0");
    }
    if t.len() == 1 && t[0] == '0' {
        assert(s =~= "0"@);
        return Ok(None);
    }
    assert(s != "0"@) by {
        if s == "0"@ {
            assert(s.len() == 1 && s[0] == '0');
        }
    }
    let mut mult: u64 = 1;
    let n = t.len();
    if n > 0 {
        let last = t[n - 1];
        if last == 'K' || last == 'k' {
            mult = 1024;
        } else if last == 'M' || last == 'm' {
            mult = 1048576;
        } else if last == 'G' || last == 'g' {
            mult = 1073741824;
        }
        if mult != 1 {
            t.truncate(n - 1);
            assert(t@ =~= s.drop_last());
        }
    }
    assert(t@ == number_and_factor(s).0 && mult == number_and_factor(s).1);
    let value = match text::parse_number(t.as_slice()) {
        Some(v) => v,
        None => {
            return Err(SizeError::Invalid);
        },
    };
    if value > usize::MAX as u64 {
        return Err(SizeError::Invalid);
    }
    let total: u128 = scaled(value, mult);
    if total <= usize::MAX as u128 {
        Ok(Some(total as usize))
    } else {
        Err(SizeError::Overflow)
    }
}

/// The product, which always fits.
fn scaled(value: u64, mult: u64) -> (r: u128)
    ensures
        r == value * mult,
{
    assert(value as u128 * mult as u128 <= u128::MAX) by (nonlinear_arith)
        requires
            value <= u64::MAX,
            mult <= u64::MAX,
    ;
    value as u128 * mult as u128
}

/// A suffix multiplies: a number with one is the number without it, so many
/// times.
pub proof fn suffixes_multiply(digits: Seq<char>, suffix: char)
    requires
        factor(suffix) is Some,
        text::number(digits) matches Some(n) && n * factor(suffix)->0 <= usize::MAX,
    ensures
        size_of(digits.push(suffix)) == Ok::<Option<nat>, SizeError>(
            Some(text::number(digits)->0 * factor(suffix)->0),
        ),
{
    let s = digits.push(suffix);
    assert(s.drop_last() =~= digits);
    reveal_strlit("unlimited");
    reveal_strlit("0");
    assert("unlimited"@[8] == 'd' && "unlimited"@.len() == 9);
    assert("0"@.len() == 1 && "0"@[0] == '0');
    if text::same_ignoring_case(s, "unlimited"@) {
        assert(text::folded(s[8]) == text::folded("unlimited"@[8]));
    }
    let n = text::number(digits)->0;
    let f = factor(suffix)->0;
    assert(n <= n * f) by (nonlinear_arith)
        requires
            n >= 0,
            f >= 1,
    ;
}

/// What `--help` prints.
pub const HELP: &'static str =
    "clipferry \u{2014} X11 <-> Wayland clipboard bridge

Usage: clipferry [OPTIONS]

Options:
      --sync-mode MODE         lazy|eager  [default: lazy]
      --eager-max-size SIZE    Per-type eager snapshot cap (10M, 512K, 1G,
                               0/unlimited = no cap)  [default: 10M]
      --primary                Also bridge the PRIMARY selection
      --skip-sensitive         Do not bridge password-manager-hinted offers
      --transfer-timeout SECS  Idle timeout for payload transfers; 0 = none  [default: 0]
      --aggressive-claims      Claim selections at once instead of filling gaps only
      --no-landlock            Disable the in-process Landlock sandbox
      --oneshot-check          Connect to both displays, print a diagnostic, exit
      --log-level LEVEL        error|warn|info|debug|trace  [default: info]
  -V, --version            Print version
  -h, --help               Print this help
";

/// What `--version` prints.
pub const VERSION_LINE: &'static str = "clipferry 0.0.2\n";

/// An argument: an option without its dashes, or a positional one.
#[derive(Debug)]
pub enum Arg {
    Short(char),
    Long(String),
    Value(String),
}

/// The argument, with its name as text.
#[verifier::ext_equal]
pub enum ArgView {
    Short(char),
    Long(Seq<char>),
    Value(Seq<char>),
}

impl View for Arg {
    type V = ArgView;

    open spec fn view(&self) -> ArgView {
        match *self {
            Arg::Short(c) => ArgView::Short(c),
            Arg::Long(name) => ArgView::Long(name@),
            Arg::Value(value) => ArgView::Value(value@),
        }
    }
}

/// The value of an option.
#[derive(Debug)]
pub enum OsText {
    /// It is text.
    Unicode(String),
    /// It is not; this is what can be shown of it.
    Lossy(String),
}

/// The value, as text.
#[verifier::ext_equal]
pub enum OsTextView {
    Unicode(Seq<char>),
    Lossy(Seq<char>),
}

impl View for OsText {
    type V = OsTextView;

    open spec fn view(&self) -> OsTextView {
        match *self {
            OsText::Unicode(t) => OsTextView::Unicode(t@),
            OsText::Lossy(t) => OsTextView::Lossy(t@),
        }
    }
}

/// Why a command line is not accepted.
#[derive(Debug)]
pub enum CliError {
    /// The parser's own words.
    Syntax(String),
    /// An option or an argument that there is not.
    Unexpected(Arg),
    /// `--sync-mode` is neither `lazy` nor `eager`.
    BadSyncMode(String),
    /// The value of an option is not text.
    NotUnicode(String),
    /// `--eager-max-size` is not a size.
    BadSize(String, SizeError),
    /// `--transfer-timeout` is not a number of seconds.
    BadTimeout(String),
    /// `--log-level` is not a level.
    BadLogLevel(String),
}

/// The error, with its words as text.
#[verifier::ext_equal]
pub enum CliErrorView {
    Syntax(Seq<char>),
    Unexpected(ArgView),
    BadSyncMode(Seq<char>),
    NotUnicode(Seq<char>),
    BadSize(Seq<char>, SizeError),
    BadTimeout(Seq<char>),
    BadLogLevel(Seq<char>),
}

impl View for CliError {
    type V = CliErrorView;

    open spec fn view(&self) -> CliErrorView {
        match *self {
            CliError::Syntax(words) => CliErrorView::Syntax(words@),
            CliError::Unexpected(arg) => CliErrorView::Unexpected(arg@),
            CliError::BadSyncMode(value) => CliErrorView::BadSyncMode(value@),
            CliError::NotUnicode(option) => CliErrorView::NotUnicode(option@),
            CliError::BadSize(value, e) => CliErrorView::BadSize(value@, e),
            CliError::BadTimeout(value) => CliErrorView::BadTimeout(value@),
            CliError::BadLogLevel(value) => CliErrorView::BadLogLevel(value@),
        }
    }
}

/// What a command line comes to.
#[derive(Debug)]
pub enum Parsed {
    /// Run with these options.
    Run(Options),
    /// Print this and exit with success.
    Exit(String),
}

/// The outcome, with what is printed as text.
#[verifier::ext_equal]
pub enum ParsedView {
    Run(Options),
    Exit(Seq<char>),
}

impl View for Parsed {
    type V = ParsedView;

    open spec fn view(&self) -> ParsedView {
        match *self {
            Parsed::Run(options) => ParsedView::Run(options),
            Parsed::Exit(text) => ParsedView::Exit(text@),
        }
    }
}

/// An outcome or an error, as views.
pub open spec fn outcome(r: Result<Parsed, CliError>) -> Result<ParsedView, CliErrorView> {
    match r {
        Ok(p) => Ok(p@),
        Err(e) => Err(e@),
    }
}

/// The options with a value.
pub open spec fn takes_value(arg: ArgView) -> bool {
    ||| arg == ArgView::Long("sync-mode"@)
    ||| arg == ArgView::Long("eager-max-size"@)
    ||| arg == ArgView::Long("transfer-timeout"@)
    ||| arg == ArgView::Long("log-level"@)
}

/// What an option without a value comes to: options to go on with, or the end.
pub open spec fn flagged(options: Options, arg: ArgView) -> Result<ParsedView, CliErrorView> {
    if arg == ArgView::Long("oneshot-check"@) {
        Ok(ParsedView::Run(Options { oneshot_check: true, ..options }))
    } else if arg == ArgView::Long("no-landlock"@) {
        Ok(ParsedView::Run(Options { no_landlock: true, ..options }))
    } else if arg == ArgView::Long("sandbox-selftest"@) {
        Ok(ParsedView::Run(Options { sandbox_selftest: true, ..options }))
    } else if arg == ArgView::Long("primary"@) {
        Ok(ParsedView::Run(Options { primary: true, ..options }))
    } else if arg == ArgView::Long("skip-sensitive"@) {
        Ok(ParsedView::Run(Options { skip_sensitive: true, ..options }))
    } else if arg == ArgView::Long("aggressive-claims"@) {
        Ok(ParsedView::Run(Options { aggressive_claims: true, ..options }))
    } else if arg == ArgView::Short('V') || arg == ArgView::Long("version"@) {
        Ok(ParsedView::Exit(VERSION_LINE@))
    } else if arg == ArgView::Short('h') || arg == ArgView::Long("help"@) {
        Ok(ParsedView::Exit(HELP@))
    } else {
        Err(CliErrorView::Unexpected(arg))
    }
}

/// Applies an option without a value.
pub fn apply_flag(options: Options, arg: Arg) -> (r: Result<Parsed, CliError>)
    ensures
        outcome(r) == flagged(options, arg@),
{
    match arg {
        Arg::Long(name) => {
            let n = name.as_str();
            if text::same(n, "oneshot-check") {
                Ok(Parsed::Run(Options { oneshot_check: true, ..options }))
            } else if text::same(n, "no-landlock") {
                Ok(Parsed::Run(Options { no_landlock: true, ..options }))
            } else if text::same(n, "sandbox-selftest") {
                Ok(Parsed::Run(Options { sandbox_selftest: true, ..options }))
            } else if text::same(n, "primary") {
                Ok(Parsed::Run(Options { primary: true, ..options }))
            } else if text::same(n, "skip-sensitive") {
                Ok(Parsed::Run(Options { skip_sensitive: true, ..options }))
            } else if text::same(n, "aggressive-claims") {
                Ok(Parsed::Run(Options { aggressive_claims: true, ..options }))
            } else if text::same(n, "version") {
                Ok(Parsed::Exit(VERSION_LINE.to_owned()))
            } else if text::same(n, "help") {
                Ok(Parsed::Exit(HELP.to_owned()))
            } else {
                Err(CliError::Unexpected(Arg::Long(name)))
            }
        },
        Arg::Short(c) => if c == 'V' {
            Ok(Parsed::Exit(VERSION_LINE.to_owned()))
        } else if c == 'h' {
            Ok(Parsed::Exit(HELP.to_owned()))
        } else {
            Err(CliError::Unexpected(Arg::Short(c)))
        },
        Arg::Value(value) => Err(CliError::Unexpected(Arg::Value(value))),
    }
}

/// The level that a name stands for, in upper or lower case.
pub open spec fn level_named(name: Seq<char>) -> Option<LogLevel> {
    if text::same_ignoring_case("OFF"@, name) {
        Some(LogLevel::Off)
    } else if text::same_ignoring_case("ERROR"@, name) {
        Some(LogLevel::Error)
    } else if text::same_ignoring_case("WARN"@, name) {
        Some(LogLevel::Warn)
    } else if text::same_ignoring_case("INFO"@, name) {
        Some(LogLevel::Info)
    } else if text::same_ignoring_case("DEBUG"@, name) {
        Some(LogLevel::Debug)
    } else if text::same_ignoring_case("TRACE"@, name) {
        Some(LogLevel::Trace)
    } else {
        None
    }
}

/// `log::LevelFilter::from_str`: the level whose name the text is, without
/// regard to the case of ASCII letters.
#[verifier::external_body]
fn parse_level(name: &str) -> (r: Option<LogLevel>)
    ensures
        r == level_named(name@),
{
    match name.parse::<log::LevelFilter>() {
        Ok(log::LevelFilter::Off) => Some(LogLevel::Off),
        Ok(log::LevelFilter::Error) => Some(LogLevel::Error),
        Ok(log::LevelFilter::Warn) => Some(LogLevel::Warn),
        Ok(log::LevelFilter::Info) => Some(LogLevel::Info),
        Ok(log::LevelFilter::Debug) => Some(LogLevel::Debug),
        Ok(log::LevelFilter::Trace) => Some(LogLevel::Trace),
        Err(_) => None,
    }
}

/// The options with an option's value taken in.
pub open spec fn valued(options: Options, name: Seq<char>, value: OsTextView) -> Result<
    Options,
    CliErrorView,
> {
    if name == "sync-mode"@ {
        match value {
            OsTextView::Unicode(t) => if t == "lazy"@ {
                Ok(Options { sync_mode: SyncMode::Lazy, ..options })
            } else if t == "eager"@ {
                Ok(Options { sync_mode: SyncMode::Eager, ..options })
            } else {
                Err(CliErrorView::BadSyncMode(t))
            },
            OsTextView::Lossy(t) => Err(CliErrorView::BadSyncMode(t)),
        }
    } else {
        match value {
            OsTextView::Lossy(_) => Err(CliErrorView::NotUnicode(name)),
            OsTextView::Unicode(t) => if name == "eager-max-size"@ {
                match size_of(text::trimmed(t)) {
                    Ok(Some(n)) => Ok(Options { eager_max_size: Some(n as usize), ..options }),
                    Ok(None) => Ok(Options { eager_max_size: None, ..options }),
                    Err(e) => Err(CliErrorView::BadSize(t, e)),
                }
            } else if name == "transfer-timeout"@ {
                match text::number(t) {
                    Some(n) if n <= u64::MAX => Ok(
                        Options { transfer_timeout: n as u64, ..options },
                    ),
                    _ => Err(CliErrorView::BadTimeout(t)),
                }
            } else {
                match level_named(t) {
                    Some(level) => Ok(Options { log_level: level, ..options }),
                    None => Err(CliErrorView::BadLogLevel(t)),
                }
            },
        }
    }
}

/// Options or an error, as views.
pub open spec fn taken(r: Result<Options, CliError>) -> Result<Options, CliErrorView> {
    match r {
        Ok(o) => Ok(o),
        Err(e) => Err(e@),
    }
}

/// Applies an option with its value.
pub fn apply_value(options: Options, name: &str, value: OsText) -> (r: Result<Options, CliError>)
    requires
        takes_value(ArgView::Long(name@)),
    ensures
        taken(r) == valued(options, name@, value@),
{
    if text::same(name, "sync-mode") {
        return match value {
            OsText::Unicode(t) => if text::same(t.as_str(), "lazy") {
                Ok(Options { sync_mode: SyncMode::Lazy, ..options })
            } else if text::same(t.as_str(), "eager") {
                Ok(Options { sync_mode: SyncMode::Eager, ..options })
            } else {
                Err(CliError::BadSyncMode(t))
            },
            OsText::Lossy(t) => Err(CliError::BadSyncMode(t)),
        };
    }
    let t = match value {
        OsText::Unicode(t) => t,
        OsText::Lossy(_) => {
            return Err(CliError::NotUnicode(name.to_owned()));
        },
    };
    if text::same(name, "eager-max-size") {
        match parse_size(t.as_str()) {
            Ok(cap) => Ok(Options { eager_max_size: cap, ..options }),
            Err(e) => Err(CliError::BadSize(t, e)),
        }
    } else if text::same(name, "transfer-timeout") {
        let digits = text::characters(t.as_str());
        match text::parse_number(digits.as_slice()) {
            Some(seconds) => Ok(Options { transfer_timeout: seconds, ..options }),
            None => Err(CliError::BadTimeout(t)),
        }
    } else {
        match parse_level(t.as_str()) {
            Some(level) => Ok(Options { log_level: level, ..options }),
            None => Err(CliError::BadLogLevel(t)),
        }
    }
}

/// The version line is the name and the version.
pub proof fn version_line_names_the_version()
    ensures
        VERSION_LINE@ == crate::NAME@ + " "@ + crate::VERSION@ + "\n"@,
{
    reveal_strlit("clipferry 0.0.2\n");
    reveal_strlit("clipferry");
    reveal_strlit(" ");
    reveal_strlit("0.0.2");
    reveal_strlit("\n");
    assert(VERSION_LINE@ =~= crate::NAME@ + " "@ + crate::VERSION@ + "\n"@);
}

/// A command line that is being parsed.
#[verifier::external_type_specification]
#[verifier::external_body]
pub struct ExParser(lexopt::Parser);

/// What a parser still holds of its command line.
pub uninterp spec fn unparsed(parser: lexopt::Parser) -> Seq<int>;

/// What `lexopt::Parser::next` gives: an argument, the end, or an error in its
/// own words; and what the parser holds then.
pub uninterp spec fn lexopt_next(unparsed: Seq<int>) -> (
    Result<Option<ArgView>, Seq<char>>,
    Seq<int>,
);

/// What `lexopt::Parser::value` gives: a value, or an error in its own words;
/// and what the parser holds then.
pub uninterp spec fn lexopt_value(unparsed: Seq<int>) -> (
    Result<OsTextView, Seq<char>>,
    Seq<int>,
);

/// An argument or an error, as views.
pub open spec fn arg_view(r: Result<Option<Arg>, String>) -> Result<Option<ArgView>, Seq<char>> {
    match r {
        Ok(Some(arg)) => Ok(Some(arg@)),
        Ok(None) => Ok(None),
        Err(words) => Err(words@),
    }
}

/// A value or an error, as views.
pub open spec fn value_view(r: Result<OsText, String>) -> Result<OsTextView, Seq<char>> {
    match r {
        Ok(value) => Ok(value@),
        Err(words) => Err(words@),
    }
}

/// `lexopt::Parser::next`: the next option or positional argument, and the
/// parser moved past it. What comes depends on nothing but what the parser
/// holds; an argument that is handed out is held no more.
#[verifier::external_body]
fn next_arg(parser: &mut lexopt::Parser) -> (r: Result<Option<Arg>, String>)
    ensures
        (arg_view(r), unparsed(*final(parser))) == lexopt_next(unparsed(*old(parser))),
        r matches Ok(Some(_)) ==> unparsed(*final(parser)).len() < unparsed(*old(parser)).len(),
{
    match parser.next() {
        Ok(Some(lexopt::Arg::Short(c))) => Ok(Some(Arg::Short(c))),
        Ok(Some(lexopt::Arg::Long(name))) => Ok(Some(Arg::Long(name.to_owned()))),
        Ok(Some(lexopt::Arg::Value(v))) => Ok(Some(Arg::Value(v.to_string_lossy().into_owned()))),
        Ok(None) => Ok(None),
        Err(e) => Err(e.to_string()),
    }
}

/// `lexopt::Parser::value`: the value of the option just handed out, and the
/// parser moved past it. What comes depends on nothing but what the parser
/// holds, and the parser never holds more afterwards.
#[verifier::external_body]
fn next_value(parser: &mut lexopt::Parser) -> (r: Result<OsText, String>)
    ensures
        (value_view(r), unparsed(*final(parser))) == lexopt_value(unparsed(*old(parser))),
        unparsed(*final(parser)).len() <= unparsed(*old(parser)).len(),
{
    match parser.value() {
        Ok(value) => match value.into_string() {
            Ok(text) => Ok(OsText::Unicode(text)),
            Err(raw) => Ok(OsText::Lossy(raw.to_string_lossy().into_owned())),
        },
        Err(e) => Err(e.to_string()),
    }
}

/// What a command line comes to, argument by argument. Parsing ends with the
/// last argument, with an option that prints and exits, or with an error.
pub open spec fn parsed(unparsed: Seq<int>, options: Options) -> Result<ParsedView, CliErrorView>
    decreases unparsed.len(),
{
    let (arg, rest) = lexopt_next(unparsed);
    match arg {
        Err(words) => Err(CliErrorView::Syntax(words)),
        Ok(None) => Ok(ParsedView::Run(options)),
        Ok(Some(a)) => if takes_value(a) {
            let (value, behind) = lexopt_value(rest);
            match value {
                Err(words) => Err(CliErrorView::Syntax(words)),
                Ok(v) => match valued(options, a->Long_0, v) {
                    Err(e) => Err(e),
                    Ok(next) => if behind.len() < unparsed.len() {
                        parsed(behind, next)
                    } else {
                        Ok(ParsedView::Run(next))
                    },
                },
            }
        } else {
            match flagged(options, a) {
                Ok(ParsedView::Run(next)) => if rest.len() < unparsed.len() {
                    parsed(rest, next)
                } else {
                    Ok(ParsedView::Run(next))
                },
                other => other,
            }
        },
    }
}

/// Parses a command line.
pub fn parse_from(parser: lexopt::Parser) -> (r: Result<Parsed, CliError>)
    ensures
        outcome(r) == parsed(unparsed(parser), default_options()),
{
    let mut rest = parser;
    let mut options = Options::default();
    loop
        invariant
            parsed(unparsed(rest), options) == parsed(unparsed(parser), default_options()),
        decreases unparsed(rest).len(),
    {
        let arg = match next_arg(&mut rest) {
            Ok(Some(arg)) => arg,
            Ok(None) => {
                return Ok(Parsed::Run(options));
            },
            Err(words) => {
                return Err(CliError::Syntax(words));
            },
        };
        let needs_value = match &arg {
            Arg::Long(name) => {
                let n = name.as_str();
                text::same(n, "sync-mode") || text::same(n, "eager-max-size") || text::same(
                    n,
                    "transfer-timeout",
                ) || text::same(n, "log-level")
            },
            _ => false,
        };
        if needs_value {
            let value = match next_value(&mut rest) {
                Ok(value) => value,
                Err(words) => {
                    return Err(CliError::Syntax(words));
                },
            };
            if let Arg::Long(name) = arg {
                match apply_value(options, name.as_str(), value) {
                    Ok(next) => {
                        options = next;
                    },
                    Err(e) => {
                        return Err(e);
                    },
                }
            }
        } else {
            match apply_flag(options, arg) {
                Ok(Parsed::Run(next)) => {
                    options = next;
                },
                other => {
                    return other;
                },
            }
        }
    }
}

/// Every option is safe to omit: a command line without arguments runs with
/// the defaults.
pub proof fn bare_invocation_runs_with_the_defaults(unparsed: Seq<int>)
    requires
        lexopt_next(unparsed).0 == Ok::<Option<ArgView>, Seq<char>>(None),
    ensures
        parsed(unparsed, default_options()) == Ok::<ParsedView, CliErrorView>(
            ParsedView::Run(default_options()),
        ),
{
}

/// Without any option: everything optional is off, logging is at its middle
/// level, content moves when it is pasted, no transfer is timed out, and a
/// capture holds ten mebibytes of a type at most.
pub proof fn defaults_are_modest(made: Options)
    requires
        call_ensures(<Options as Default>::default, (), made),
    ensures
        made == default_options(),
        !made.oneshot_check && !made.no_landlock && !made.sandbox_selftest,
        !made.primary && !made.skip_sensitive && !made.aggressive_claims,
        made.log_level is Info,
        made.sync_mode is Lazy,
        made.transfer_timeout == 0,
        made.eager_max_size == Some(10485760usize),
{
}

/// Each flag sets its own option and leaves the others alone. The two
/// questions, by either name, are answered and nothing runs. Whatever else
/// stands on the command line is an error that names it.
pub proof fn flags_set_their_own_option(options: Options, arg: ArgView)
    ensures
        flagged(options, ArgView::Long("oneshot-check"@)) == Ok::<ParsedView, CliErrorView>(
            ParsedView::Run(Options { oneshot_check: true, ..options }),
        ),
        flagged(options, ArgView::Long("no-landlock"@)) == Ok::<ParsedView, CliErrorView>(
            ParsedView::Run(Options { no_landlock: true, ..options }),
        ),
        flagged(options, ArgView::Long("sandbox-selftest"@)) == Ok::<ParsedView, CliErrorView>(
            ParsedView::Run(Options { sandbox_selftest: true, ..options }),
        ),
        flagged(options, ArgView::Long("primary"@)) == Ok::<ParsedView, CliErrorView>(
            ParsedView::Run(Options { primary: true, ..options }),
        ),
        flagged(options, ArgView::Long("skip-sensitive"@)) == Ok::<ParsedView, CliErrorView>(
            ParsedView::Run(Options { skip_sensitive: true, ..options }),
        ),
        flagged(options, ArgView::Long("aggressive-claims"@)) == Ok::<ParsedView, CliErrorView>(
            ParsedView::Run(Options { aggressive_claims: true, ..options }),
        ),
        flagged(options, ArgView::Short('V')) == Ok::<ParsedView, CliErrorView>(
            ParsedView::Exit("clipferry 0.0.2\n"@),
        ),
        flagged(options, ArgView::Long("version"@)) == flagged(options, ArgView::Short('V')),
        flagged(options, ArgView::Short('h')) == Ok::<ParsedView, CliErrorView>(
            ParsedView::Exit(HELP@),
        ),
        flagged(options, ArgView::Long("help"@)) == flagged(options, ArgView::Short('h')),
        arg is Value ==> flagged(options, arg) == Err::<ParsedView, CliErrorView>(
            CliErrorView::Unexpected(arg),
        ),
        arg is Short && arg->Short_0 != 'V' && arg->Short_0 != 'h' ==> flagged(options, arg) == Err::<
            ParsedView,
            CliErrorView,
        >(CliErrorView::Unexpected(arg)),
        arg is Long && !seq![
            "oneshot-check"@,
            "no-landlock"@,
            "sandbox-selftest"@,
            "primary"@,
            "skip-sensitive"@,
            "aggressive-claims"@,
            "version"@,
            "help"@,
        ].contains(arg->Long_0) ==> flagged(options, arg) == Err::<ParsedView, CliErrorView>(
            CliErrorView::Unexpected(arg),
        ),
{
    reveal_strlit("oneshot-check");
    reveal_strlit("no-landlock");
    reveal_strlit("sandbox-selftest");
    reveal_strlit("primary");
    reveal_strlit("skip-sensitive");
    reveal_strlit("aggressive-claims");
    reveal_strlit("version");
    reveal_strlit("help");
    assert("oneshot-check"@.len() == 13 && "oneshot-check"@[0] == 'o');
    assert("no-landlock"@.len() == 11 && "no-landlock"@[0] == 'n');
    assert("sandbox-selftest"@.len() == 16 && "sandbox-selftest"@[0] == 's');
    assert("primary"@.len() == 7 && "primary"@[0] == 'p');
    assert("skip-sensitive"@.len() == 14 && "skip-sensitive"@[0] == 's');
    assert("aggressive-claims"@.len() == 17 && "aggressive-claims"@[0] == 'a');
    assert("version"@.len() == 7 && "version"@[0] == 'v');
    assert("help"@.len() == 4 && "help"@[0] == 'h');
    let all = seq![
        "oneshot-check"@,
        "no-landlock"@,
        "sandbox-selftest"@,
        "primary"@,
        "skip-sensitive"@,
        "aggressive-claims"@,
        "version"@,
        "help"@,
    ];
    assert(all[0] == "oneshot-check"@);
    assert(all[1] == "no-landlock"@);
    assert(all[2] == "sandbox-selftest"@);
    assert(all[3] == "primary"@);
    assert(all[4] == "skip-sensitive"@);
    assert(all[5] == "aggressive-claims"@);
    assert(all[6] == "version"@);
    assert(all[7] == "help"@);
}

/// Exactly four options take a value.
pub proof fn four_options_take_a_value(arg: ArgView)
    ensures
        takes_value(arg) <==> arg is Long && seq![
            "sync-mode"@,
            "eager-max-size"@,
            "transfer-timeout"@,
            "log-level"@,
        ].contains(arg->Long_0),
{
    let all = seq!["sync-mode"@, "eager-max-size"@, "transfer-timeout"@, "log-level"@];
    assert(all[0] == "sync-mode"@ && all[1] == "eager-max-size"@);
    assert(all[2] == "transfer-timeout"@ && all[3] == "log-level"@);
}

/// The sync mode is `lazy` or `eager`, written just so; anything else is an
/// error that quotes it. No other option changes.
pub proof fn sync_modes_are_named(options: Options, t: Seq<char>)
    ensures
        valued(options, "sync-mode"@, OsTextView::Unicode("lazy"@)) == Ok::<Options, CliErrorView>(
            Options { sync_mode: SyncMode::Lazy, ..options },
        ),
        valued(options, "sync-mode"@, OsTextView::Unicode("eager"@)) == Ok::<Options, CliErrorView>(
            Options { sync_mode: SyncMode::Eager, ..options },
        ),
        t != "lazy"@ && t != "eager"@ ==> valued(options, "sync-mode"@, OsTextView::Unicode(t))
            == Err::<Options, CliErrorView>(CliErrorView::BadSyncMode(t)),
        valued(options, "sync-mode"@, OsTextView::Lossy(t)) == Err::<Options, CliErrorView>(
            CliErrorView::BadSyncMode(t),
        ),
{
    reveal_strlit("lazy");
    reveal_strlit("eager");
    assert("lazy"@.len() == 4 && "eager"@.len() == 5);
}

/// The three other values: a size, with white space around it or not, is the
/// capture limit; a number is the timeout in seconds; a name is the log level.
/// What is not is an error that quotes the value, or, where it is not Unicode,
/// names the option. No other option changes.
pub proof fn values_set_their_own_option(options: Options, t: Seq<char>)
    ensures
        size_of(text::trimmed(t)) matches Ok(limit) ==> valued(
            options,
            "eager-max-size"@,
            OsTextView::Unicode(t),
        ) == Ok::<Options, CliErrorView>(
            Options {
                eager_max_size: match limit {
                    Some(n) => Some(n as usize),
                    None => None,
                },
                ..options
            },
        ),
        size_of(text::trimmed(t)) matches Err(e) ==> valued(
            options,
            "eager-max-size"@,
            OsTextView::Unicode(t),
        ) == Err::<Options, CliErrorView>(CliErrorView::BadSize(t, e)),
        text::number(t) is Some && text::number(t)->0 <= u64::MAX ==> valued(
            options,
            "transfer-timeout"@,
            OsTextView::Unicode(t),
        ) == Ok::<Options, CliErrorView>(
            Options { transfer_timeout: text::number(t)->0 as u64, ..options },
        ),
        text::number(t) is None || text::number(t)->0 > u64::MAX ==> valued(
            options,
            "transfer-timeout"@,
            OsTextView::Unicode(t),
        ) == Err::<Options, CliErrorView>(CliErrorView::BadTimeout(t)),
        level_named(t) is Some ==> valued(options, "log-level"@, OsTextView::Unicode(t)) == Ok::<
            Options,
            CliErrorView,
        >(Options { log_level: level_named(t)->0, ..options }),
        level_named(t) is None ==> valued(options, "log-level"@, OsTextView::Unicode(t)) == Err::<
            Options,
            CliErrorView,
        >(CliErrorView::BadLogLevel(t)),
        valued(options, "eager-max-size"@, OsTextView::Lossy(t)) == Err::<Options, CliErrorView>(
            CliErrorView::NotUnicode("eager-max-size"@),
        ),
        valued(options, "transfer-timeout"@, OsTextView::Lossy(t)) == Err::<Options, CliErrorView>(
            CliErrorView::NotUnicode("transfer-timeout"@),
        ),
        valued(options, "log-level"@, OsTextView::Lossy(t)) == Err::<Options, CliErrorView>(
            CliErrorView::NotUnicode("log-level"@),
        ),
{
    reveal_strlit("sync-mode");
    reveal_strlit("eager-max-size");
    reveal_strlit("transfer-timeout");
    reveal_strlit("log-level");
    assert("sync-mode"@.len() == 9 && "sync-mode"@[0] == 's');
    assert("eager-max-size"@.len() == 14);
    assert("transfer-timeout"@.len() == 16);
    assert("log-level"@.len() == 9 && "log-level"@[0] == 'l');
}

/// The six log levels go by their names, in capitals or not, and by no other.
pub proof fn log_levels_are_named(name: Seq<char>)
    ensures
        text::same_ignoring_case(name, "off"@) ==> level_named(name) == Some(LogLevel::Off),
        text::same_ignoring_case(name, "error"@) ==> level_named(name) == Some(LogLevel::Error),
        text::same_ignoring_case(name, "warn"@) ==> level_named(name) == Some(LogLevel::Warn),
        text::same_ignoring_case(name, "info"@) ==> level_named(name) == Some(LogLevel::Info),
        text::same_ignoring_case(name, "debug"@) ==> level_named(name) == Some(LogLevel::Debug),
        text::same_ignoring_case(name, "trace"@) ==> level_named(name) == Some(LogLevel::Trace),
        level_named(name) is Some ==> {
            ||| text::same_ignoring_case(name, "off"@)
            ||| text::same_ignoring_case(name, "error"@)
            ||| text::same_ignoring_case(name, "warn"@)
            ||| text::same_ignoring_case(name, "info"@)
            ||| text::same_ignoring_case(name, "debug"@)
            ||| text::same_ignoring_case(name, "trace"@)
        },
{
    reveal_strlit("off");
    reveal_strlit("OFF");
    reveal_strlit("error");
    reveal_strlit("ERROR");
    reveal_strlit("warn");
    reveal_strlit("WARN");
    reveal_strlit("info");
    reveal_strlit("INFO");
    reveal_strlit("debug");
    reveal_strlit("DEBUG");
    reveal_strlit("trace");
    reveal_strlit("TRACE");
    assert("off"@.len() == 3 && "OFF"@.len() == 3);
    assert("off"@[0] == 'o' && "OFF"@[0] == 'O' && "off"@[1] == 'f' && "OFF"@[1] == 'F'
        && "off"@[2] == 'f' && "OFF"@[2] == 'F');
    assert("error"@.len() == 5 && "ERROR"@.len() == 5);
    assert("error"@[0] == 'e' && "ERROR"@[0] == 'E' && "error"@[1] == 'r' && "ERROR"@[1] == 'R'
        && "error"@[2] == 'r' && "ERROR"@[2] == 'R' && "error"@[3] == 'o' && "ERROR"@[3] == 'O'
        && "error"@[4] == 'r' && "ERROR"@[4] == 'R');
    assert("warn"@.len() == 4 && "WARN"@.len() == 4);
    assert("warn"@[0] == 'w' && "WARN"@[0] == 'W' && "warn"@[1] == 'a' && "WARN"@[1] == 'A'
        && "warn"@[2] == 'r' && "WARN"@[2] == 'R' && "warn"@[3] == 'n' && "WARN"@[3] == 'N');
    assert("info"@.len() == 4 && "INFO"@.len() == 4);
    assert("info"@[0] == 'i' && "INFO"@[0] == 'I' && "info"@[1] == 'n' && "INFO"@[1] == 'N'
        && "info"@[2] == 'f' && "INFO"@[2] == 'F' && "info"@[3] == 'o' && "INFO"@[3] == 'O');
    assert("debug"@.len() == 5 && "DEBUG"@.len() == 5);
    assert("debug"@[0] == 'd' && "DEBUG"@[0] == 'D' && "debug"@[1] == 'e' && "DEBUG"@[1] == 'E'
        && "debug"@[2] == 'b' && "DEBUG"@[2] == 'B' && "debug"@[3] == 'u' && "DEBUG"@[3] == 'U'
        && "debug"@[4] == 'g' && "DEBUG"@[4] == 'G');
    assert("trace"@.len() == 5 && "TRACE"@.len() == 5);
    assert("trace"@[0] == 't' && "TRACE"@[0] == 'T' && "trace"@[1] == 'r' && "TRACE"@[1] == 'R'
        && "trace"@[2] == 'a' && "TRACE"@[2] == 'A' && "trace"@[3] == 'c' && "TRACE"@[3] == 'C'
        && "trace"@[4] == 'e' && "TRACE"@[4] == 'E');
    names_match_in_either_case(name, "OFF"@, "off"@);
    names_match_in_either_case(name, "ERROR"@, "error"@);
    names_match_in_either_case(name, "WARN"@, "warn"@);
    names_match_in_either_case(name, "INFO"@, "info"@);
    names_match_in_either_case(name, "DEBUG"@, "debug"@);
    names_match_in_either_case(name, "TRACE"@, "trace"@);
    if text::same_ignoring_case(name, "off"@) {
        assert(text::folded(name[0]) == text::folded("off"@[0]));
    }
    if text::same_ignoring_case("OFF"@, name) {
        assert(text::folded("OFF"@[0]) == text::folded(name[0]));
    }
    if text::same_ignoring_case(name, "error"@) {
        assert(text::folded(name[0]) == text::folded("error"@[0]));
    }
    if text::same_ignoring_case("ERROR"@, name) {
        assert(text::folded("ERROR"@[0]) == text::folded(name[0]));
    }
    if text::same_ignoring_case(name, "warn"@) {
        assert(text::folded(name[0]) == text::folded("warn"@[0]));
    }
    if text::same_ignoring_case("WARN"@, name) {
        assert(text::folded("WARN"@[0]) == text::folded(name[0]));
    }
    if text::same_ignoring_case(name, "info"@) {
        assert(text::folded(name[0]) == text::folded("info"@[0]));
    }
    if text::same_ignoring_case("INFO"@, name) {
        assert(text::folded("INFO"@[0]) == text::folded(name[0]));
    }
    if text::same_ignoring_case(name, "debug"@) {
        assert(text::folded(name[0]) == text::folded("debug"@[0]));
    }
    if text::same_ignoring_case("DEBUG"@, name) {
        assert(text::folded("DEBUG"@[0]) == text::folded(name[0]));
    }
    if text::same_ignoring_case(name, "trace"@) {
        assert(text::folded(name[0]) == text::folded("trace"@[0]));
    }
    if text::same_ignoring_case("TRACE"@, name) {
        assert(text::folded("TRACE"@[0]) == text::folded(name[0]));
    }
}

/// The three suffixes, in capitals or not: kibibytes, mebibytes, gibibytes.
pub proof fn three_suffixes(c: char)
    ensures
        c == 'K' || c == 'k' ==> factor(c) == Some(1024nat),
        c == 'M' || c == 'm' ==> factor(c) == Some(1048576nat),
        c == 'G' || c == 'g' ==> factor(c) == Some(1073741824nat),
        factor(c) is Some <==> seq!['K', 'k', 'M', 'm', 'G', 'g'].contains(c),
{
    let all = seq!['K', 'k', 'M', 'm', 'G', 'g'];
    assert(all[0] == 'K' && all[1] == 'k' && all[2] == 'M');
    assert(all[3] == 'm' && all[4] == 'G' && all[5] == 'g');
}

/// A plain number is a size in bytes. No limit is meant by a single zero, and
/// by the word for it, in capitals or not. What is no number, with or without
/// a suffix, is refused, and so is more than the machine can count.
pub proof fn plain_sizes_are_bytes(s: Seq<char>)
    ensures
        s == seq!['0'] ==> size_of(s) == Ok::<Option<nat>, SizeError>(None),
        text::same_ignoring_case(s, "unlimited"@) ==> size_of(s) == Ok::<Option<nat>, SizeError>(
            None,
        ),
        text::number(s) is Some && s != seq!['0'] && text::number(s)->0 <= usize::MAX ==> size_of(s)
            == Ok::<Option<nat>, SizeError>(Some(text::number(s)->0)),
        text::number(s) is Some && text::number(s)->0 > usize::MAX ==> size_of(s) == Err::<
            Option<nat>,
            SizeError,
        >(SizeError::Invalid),
        s.len() == 0 ==> size_of(s) == Err::<Option<nat>, SizeError>(SizeError::Invalid),
        s.len() > 0 && factor(s.last()) is None && text::number(s) is None
            && !text::same_ignoring_case(s, "unlimited"@) ==> size_of(s) == Err::<
            Option<nat>,
            SizeError,
        >(SizeError::Invalid),
{
    reveal_strlit("unlimited");
    reveal_strlit("0");
    assert("unlimited"@.len() == 9 && "unlimited"@[0] == 'u');
    assert("0"@ =~= seq!['0']);
    if text::number(s) is Some {
        let digits = text::digits_of(s);
        assert(digits.last() == s.last());
        assert(text::is_digit(digits[digits.len() - 1]));
        assert(factor(s.last()) is None);
        assert(number_and_factor(s) == (s, 1nat));
        let n = text::number(s)->0;
        assert(n * number_and_factor(s).1 == n);
        if text::same_ignoring_case(s, "unlimited"@) {
            assert(text::folded(s[0]) == text::folded("unlimited"@[0]));
            assert(digits[0] == s[0]);
            assert(text::is_digit(digits[0]));
        }
        if s == seq!['0'] {
            assert(digits =~= seq!['0']);
            assert(digits.drop_last() =~= seq![]);
            assert(text::decimal(digits.drop_last()) == 0);
            assert(text::decimal(digits) == 0);
        }
    }
    if s.len() == 0 {
        assert(text::digits_of(s).len() == 0);
    }
}

/// A number with a suffix that comes to more than the machine can count is
/// refused as too large; one without a number in front is refused as none.
pub proof fn suffixed_sizes_are_checked(digits: Seq<char>, suffix: char)
    requires
        factor(suffix) is Some,
    ensures
        text::number(digits) is Some && text::number(digits)->0 <= usize::MAX && text::number(
            digits,
        )->0 * factor(suffix)->0 > usize::MAX ==> size_of(digits.push(suffix)) == Err::<
            Option<nat>,
            SizeError,
        >(SizeError::Overflow),
        text::number(digits) is None ==> size_of(digits.push(suffix)) == Err::<
            Option<nat>,
            SizeError,
        >(SizeError::Invalid),
{
    let s = digits.push(suffix);
    assert(s.drop_last() =~= digits);
    reveal_strlit("unlimited");
    reveal_strlit("0");
    assert("unlimited"@[8] == 'd' && "unlimited"@.len() == 9);
    assert("0"@.len() == 1 && "0"@[0] == '0');
    if text::same_ignoring_case(s, "unlimited"@) {
        assert(text::folded(s[8]) == text::folded("unlimited"@[8]));
    }
}

/// A size is read from its text without the white space around it.
pub proof fn sizes_are_read_as_written(given: &str, r: Result<Option<usize>, SizeError>)
    requires
        call_ensures(parse_size, (given,), r),
    ensures
        ({
            let size = size_of(text::trimmed(given@));
            &&& r is Ok == size is Ok
            &&& r is Err ==> r->Err_0 == size->Err_0
            &&& r is Ok && r->Ok_0 is Some ==> size->Ok_0 == Some(r->Ok_0->0 as nat)
            &&& r is Ok && r->Ok_0 is None ==> size->Ok_0 is None
        }),
{
}

/// A command line is taken argument by argument. A flag sets its option and the
/// rest goes on from there; a value sets its option likewise; at the end the
/// options so far are what runs. A question or an error ends it at once.
pub proof fn arguments_are_taken_one_by_one(
    unparsed: Seq<int>,
    options: Options,
    arg: ArgView,
    value: OsTextView,
    words: Seq<char>,
)
    ensures
        lexopt_next(unparsed).0 == Ok::<Option<ArgView>, Seq<char>>(None) ==> parsed(
            unparsed,
            options,
        ) == Ok::<ParsedView, CliErrorView>(ParsedView::Run(options)),
        lexopt_next(unparsed).0 == Err::<Option<ArgView>, Seq<char>>(words) ==> parsed(
            unparsed,
            options,
        ) == Err::<ParsedView, CliErrorView>(CliErrorView::Syntax(words)),
        lexopt_next(unparsed).0 == Ok::<Option<ArgView>, Seq<char>>(Some(arg)) && !takes_value(arg)
            && lexopt_next(unparsed).1.len() < unparsed.len() ==> parsed(unparsed, options) == (
        match flagged(options, arg) {
            Ok(ParsedView::Run(next)) => parsed(lexopt_next(unparsed).1, next),
            Ok(ParsedView::Exit(said)) => Ok(ParsedView::Exit(said)),
            Err(e) => Err(e),
        }),
        lexopt_next(unparsed).0 == Ok::<Option<ArgView>, Seq<char>>(Some(arg)) && takes_value(arg)
            && lexopt_value(lexopt_next(unparsed).1).0 == Ok::<OsTextView, Seq<char>>(value)
            && lexopt_value(lexopt_next(unparsed).1).1.len() < unparsed.len() ==> parsed(
            unparsed,
            options,
        ) == (match valued(options, arg->Long_0, value) {
            Ok(next) => parsed(lexopt_value(lexopt_next(unparsed).1).1, next),
            Err(e) => Err(e),
        }),
        lexopt_next(unparsed).0 == Ok::<Option<ArgView>, Seq<char>>(Some(arg)) && takes_value(arg)
            && lexopt_value(lexopt_next(unparsed).1).0 == Err::<OsTextView, Seq<char>>(words)
            ==> parsed(unparsed, options) == Err::<ParsedView, CliErrorView>(
            CliErrorView::Syntax(words),
        ),
{
}

/// A whole command line is taken from its start, with the defaults; what comes
/// of it is handed out as it is.
pub proof fn command_lines_start_from_the_defaults(
    parser: lexopt::Parser,
    r: Result<Parsed, CliError>,
)
    requires
        call_ensures(parse_from, (parser,), r),
    ensures
        r matches Ok(Parsed::Run(options)) ==> parsed(unparsed(parser), default_options()) == Ok::<
            ParsedView,
            CliErrorView,
        >(ParsedView::Run(options)),
        r matches Ok(Parsed::Exit(said)) ==> parsed(unparsed(parser), default_options()) == Ok::<
            ParsedView,
            CliErrorView,
        >(ParsedView::Exit(said@)),
        r is Err ==> parsed(unparsed(parser), default_options()) is Err,
{
}

proof fn names_match_in_either_case(name: Seq<char>, upper: Seq<char>, lower: Seq<char>)
    requires
        upper.len() == lower.len(),
        forall|i: int|
            0 <= i < upper.len() ==> text::folded(#[trigger] upper[i]) == text::folded(lower[i]),
    ensures
        text::same_ignoring_case(upper, name) <==> text::same_ignoring_case(name, lower),
{
    if text::same_ignoring_case(upper, name) {
        assert forall|i: int| 0 <= i < name.len() implies text::folded(name[i]) == text::folded(
            lower[i],
        ) by {
            assert(text::folded(upper[i]) == text::folded(name[i]));
        }
    }
    if text::same_ignoring_case(name, lower) {
        assert forall|i: int| 0 <= i < upper.len() implies text::folded(upper[i]) == text::folded(
            name[i],
        ) by {
            assert(text::folded(upper[i]) == text::folded(lower[i]));
        }
    }
}

/// Arguments, values, errors and results say of themselves what they hold.
pub proof fn command_lines_say_what_they_hold(word: String, c: char, e: SizeError, arg: Arg)
    ensures
        Arg::Short(c)@ == ArgView::Short(c),
        Arg::Long(word)@ == ArgView::Long(word@),
        Arg::Value(word)@ == ArgView::Value(word@),
        OsText::Unicode(word)@ == OsTextView::Unicode(word@),
        OsText::Lossy(word)@ == OsTextView::Lossy(word@),
        CliError::Syntax(word)@ == CliErrorView::Syntax(word@),
        CliError::Unexpected(arg)@ == CliErrorView::Unexpected(arg@),
        CliError::BadSyncMode(word)@ == CliErrorView::BadSyncMode(word@),
        CliError::NotUnicode(word)@ == CliErrorView::NotUnicode(word@),
        CliError::BadSize(word, e)@ == CliErrorView::BadSize(word@, e),
        CliError::BadTimeout(word)@ == CliErrorView::BadTimeout(word@),
        CliError::BadLogLevel(word)@ == CliErrorView::BadLogLevel(word@),
{
}

/// One option at a time: what a flag or a value makes of the options is what is
/// stated of it, and an error is the one that is stated.
pub proof fn options_are_applied_as_stated(
    options: Options,
    arg: Arg,
    flag: Result<Parsed, CliError>,
    name: &str,
    value: OsText,
    set: Result<Options, CliError>,
)
    requires
        call_ensures(apply_flag, (options, arg), flag),
        call_ensures(apply_value, (options, name, value), set),
    ensures
        flag matches Ok(Parsed::Run(next)) ==> flagged(options, arg@) == Ok::<
            ParsedView,
            CliErrorView,
        >(ParsedView::Run(next)),
        flag matches Ok(Parsed::Exit(said)) ==> flagged(options, arg@) == Ok::<
            ParsedView,
            CliErrorView,
        >(ParsedView::Exit(said@)),
        flag matches Err(e) ==> flagged(options, arg@) == Err::<ParsedView, CliErrorView>(e@),
        set matches Ok(next) ==> valued(options, name@, value@) == Ok::<Options, CliErrorView>(next),
        set matches Err(e) ==> valued(options, name@, value@) == Err::<Options, CliErrorView>(e@),
{
}

} // verus!
