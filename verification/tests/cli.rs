use clipferry::cli::{
    apply_value, parse_from, parse_size, Arg, CliError, LogLevel, Options, OsText, Parsed,
    SizeError, SyncMode, HELP,
};
use clipferry::VERSION;

fn run(args: &[&str]) -> Result<Parsed, CliError> {
    parse_from(lexopt::Parser::from_iter(
        std::iter::once("clipferry").chain(args.iter().copied()),
    ))
}

#[test]
fn defaults() {
    let Parsed::Run(o) = run(&[]).unwrap() else {
        panic!("expected Run")
    };
    assert!(!o.oneshot_check);
    assert_eq!(o.log_level, LogLevel::Info);
}

#[test]
fn flags_parse() {
    let Parsed::Run(o) = run(&[
        "--oneshot-check",
        "--log-level",
        "debug",
        "--transfer-timeout",
        "30",
    ])
    .unwrap() else {
        panic!("expected Run")
    };
    assert!(o.oneshot_check);
    assert_eq!(o.log_level, LogLevel::Debug);
    assert_eq!(o.transfer_timeout, 30);
}

#[test]
fn timeout_defaults_to_infinite() {
    let Parsed::Run(o) = run(&[]).unwrap() else {
        panic!("expected Run")
    };
    assert_eq!(o.transfer_timeout, 0);
    assert_eq!(o.sync_mode, SyncMode::Lazy);
    assert_eq!(o.eager_max_size, Some(10 << 20));
    assert!(!o.primary);
    assert!(!o.skip_sensitive);
}

#[test]
fn m4_flags_parse() {
    let Parsed::Run(o) = run(&[
        "--sync-mode",
        "eager",
        "--eager-max-size",
        "512K",
        "--primary",
        "--skip-sensitive",
    ])
    .unwrap() else {
        panic!("expected Run")
    };
    assert_eq!(o.sync_mode, SyncMode::Eager);
    assert_eq!(o.eager_max_size, Some(512 << 10));
    assert!(o.primary);
    assert!(o.skip_sensitive);
}

#[test]
fn size_parsing() {
    assert_eq!(parse_size("10M").unwrap(), Some(10 << 20));
    assert_eq!(parse_size("512k").unwrap(), Some(512 << 10));
    assert_eq!(parse_size("1G").unwrap(), Some(1 << 30));
    assert_eq!(parse_size("12345").unwrap(), Some(12345));
    assert_eq!(parse_size("0").unwrap(), None);
    assert_eq!(parse_size("unlimited").unwrap(), None);
    assert!(parse_size("ten").is_err());
    assert!(parse_size("10T").is_err());
}

#[test]
fn size_edge_cases() {
    assert_eq!(parse_size("  8K\n").unwrap(), Some(8 << 10));
    assert_eq!(parse_size("UnLimited").unwrap(), None);
    assert_eq!(parse_size("+7").unwrap(), Some(7));
    assert_eq!(parse_size("0K").unwrap(), Some(0));
    assert_eq!(parse_size(""), Err(SizeError::Invalid));
    assert_eq!(parse_size("M"), Err(SizeError::Invalid));
    assert_eq!(parse_size("1 0"), Err(SizeError::Invalid));
    assert_eq!(parse_size("99999999999999999999"), Err(SizeError::Invalid));
    assert_eq!(parse_size("18446744073709551615G"), Err(SizeError::Overflow));
}

#[test]
fn bad_level_and_unknown_flag_error() {
    assert!(run(&["--log-level", "loud"]).is_err());
    assert!(run(&["--frobnicate"]).is_err());
}

#[test]
fn the_other_flags_parse() {
    let Parsed::Run(o) = run(&[
        "--aggressive-claims",
        "--no-landlock",
        "--sandbox-selftest",
        "--log-level=TRACE",
        "--eager-max-size=unlimited",
        "--sync-mode=lazy",
    ])
    .unwrap() else {
        panic!("expected Run")
    };
    assert!(o.aggressive_claims && o.no_landlock && o.sandbox_selftest);
    assert_eq!(o.log_level, LogLevel::Trace);
    assert_eq!(o.eager_max_size, None);
    assert_eq!(o.sync_mode, SyncMode::Lazy);
    let Parsed::Run(o) = run(&["--log-level", "off"]).unwrap() else {
        panic!("expected Run")
    };
    assert_eq!(o.log_level, LogLevel::Off);
}

#[test]
fn help_and_version_exit() {
    for arg in ["-h", "--help"] {
        assert!(matches!(run(&[arg]), Ok(Parsed::Exit(text)) if text == HELP));
    }
    for arg in ["-V", "--version"] {
        assert!(
            matches!(run(&[arg]), Ok(Parsed::Exit(text)) if text == format!("clipferry {VERSION}\n"))
        );
    }
    assert!(HELP.contains("--aggressive-claims"));
}

#[test]
fn each_error_has_its_input() {
    assert!(matches!(
        run(&["--sync-mode", "hasty"]),
        Err(CliError::BadSyncMode(v)) if v == "hasty"
    ));
    assert!(matches!(
        run(&["--eager-max-size", "ten"]),
        Err(CliError::BadSize(v, SizeError::Invalid)) if v == "ten"
    ));
    assert!(matches!(
        run(&["--transfer-timeout", "-1"]),
        Err(CliError::BadTimeout(v)) if v == "-1"
    ));
    assert!(matches!(
        run(&["--log-level", "loud"]),
        Err(CliError::BadLogLevel(v)) if v == "loud"
    ));
    assert!(matches!(
        run(&["--frobnicate"]),
        Err(CliError::Unexpected(Arg::Long(n))) if n == "frobnicate"
    ));
    assert!(matches!(
        run(&["-x"]),
        Err(CliError::Unexpected(Arg::Short('x')))
    ));
    assert!(matches!(
        run(&["stray"]),
        Err(CliError::Unexpected(Arg::Value(v))) if v == "stray"
    ));
    assert!(matches!(run(&["--sync-mode"]), Err(CliError::Syntax(_))));
    assert!(matches!(run(&["--primary=yes"]), Err(CliError::Syntax(_))));
}

#[test]
fn values_that_are_not_text_are_refused() {
    assert!(matches!(
        apply_value(Options::default(), "log-level", OsText::Lossy("?".to_owned())),
        Err(CliError::NotUnicode(option)) if option == "log-level"
    ));
    assert!(matches!(
        apply_value(Options::default(), "sync-mode", OsText::Lossy("?".to_owned())),
        Err(CliError::BadSyncMode(v)) if v == "?"
    ));
}
