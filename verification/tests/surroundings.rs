use clipferry::cli::LogLevel;
use clipferry::logging::{enabled, format_line, is_journal_stream, Level};
use clipferry::sandbox::{
    report, selftest_verdict, xauthority_candidates, Report, RulesetStatus, SelftestVerdict,
};
use clipferry::wayland::{preferred_protocol, OfferMimes, Protocol};
use clipferry::{SelKind, NAME, VERSION};

#[test]
fn version_is_semver_shaped() {
    let parts: Vec<&str> = VERSION.split('.').collect();
    assert_eq!(parts.len(), 3);
    for part in parts {
        part.parse::<u64>().unwrap();
    }
}

#[test]
fn selections_have_names() {
    assert_eq!(NAME, "clipferry");
    assert_eq!(SelKind::ALL, [SelKind::Clipboard, SelKind::Primary]);
    assert_eq!((SelKind::Clipboard.idx(), SelKind::Primary.idx()), (0, 1));
    assert_eq!(SelKind::Clipboard.label(), "CLIPBOARD");
    assert_eq!(SelKind::Primary.label(), "PRIMARY");
    assert_eq!(SelKind::Clipboard.key(), "clipboard");
    assert_eq!(SelKind::Primary.key(), "primary");
}

#[test]
fn lines_are_logfmt() {
    assert_eq!(
        format_line(Level::Info, "event=claim side=x11", false),
        "level=info event=claim side=x11"
    );
    assert_eq!(format_line(Level::Error, "x", true), "<3>level=error x");
    assert_eq!(format_line(Level::Warn, "x", true), "<4>level=warn x");
    assert_eq!(format_line(Level::Info, "x", true), "<6>level=info x");
    assert_eq!(format_line(Level::Debug, "x", true), "<7>level=debug x");
    assert_eq!(format_line(Level::Trace, "x", true), "<7>level=trace x");
}

#[test]
fn levels_filter() {
    let levels = [
        Level::Error,
        Level::Warn,
        Level::Info,
        Level::Debug,
        Level::Trace,
    ];
    let filters = [
        LogLevel::Off,
        LogLevel::Error,
        LogLevel::Warn,
        LogLevel::Info,
        LogLevel::Debug,
        LogLevel::Trace,
    ];
    for (reach, filter) in filters.into_iter().enumerate() {
        let logged = levels.iter().filter(|l| enabled(**l, filter)).count();
        assert_eq!(logged, reach);
    }
}

#[test]
fn the_journal_is_recognised_by_its_stream() {
    assert!(is_journal_stream(Some("8:1234"), 8, 1234));
    assert!(!is_journal_stream(Some("8:1234"), 8, 1235));
    assert!(!is_journal_stream(Some("8:1234"), 9, 1234));
    assert!(!is_journal_stream(Some("8"), 8, 0));
    assert!(!is_journal_stream(Some("8:12:34"), 8, 12));
    assert!(!is_journal_stream(Some(""), 0, 0));
    assert!(!is_journal_stream(None, 8, 1234));
}

#[test]
fn authority_files_are_looked_for_in_order() {
    assert_eq!(
        xauthority_candidates(Some("/run/auth".to_owned()), Some("/home/u")),
        vec!["/run/auth", "/home/u/.Xauthority"]
    );
    assert_eq!(
        xauthority_candidates(None, Some("/home/u/")),
        vec!["/home/u/.Xauthority"]
    );
    assert_eq!(xauthority_candidates(None, Some("")), vec![".Xauthority"]);
    assert!(xauthority_candidates(None, None).is_empty());
}

#[test]
fn the_sandbox_is_reported() {
    assert_eq!(report(true, None), Report::Disabled);
    assert_eq!(
        report(false, Some(RulesetStatus::FullyEnforced)),
        Report::Enforced
    );
    assert_eq!(
        report(false, Some(RulesetStatus::PartiallyEnforced)),
        Report::Partial
    );
    assert_eq!(
        report(false, Some(RulesetStatus::NotEnforced)),
        Report::Unavailable
    );
    assert_eq!(report(false, None), Report::Failed);
}

#[test]
fn the_selftest_is_judged() {
    let full = RulesetStatus::FullyEnforced;
    let partial = RulesetStatus::PartiallyEnforced;
    assert_eq!(
        selftest_verdict(RulesetStatus::NotEnforced, false, false, false),
        SelftestVerdict::Unsupported
    );
    assert_eq!(
        selftest_verdict(full, true, true, true),
        SelftestVerdict::Passed
    );
    assert_eq!(
        selftest_verdict(full, true, false, true),
        SelftestVerdict::Failed
    );
    assert_eq!(
        selftest_verdict(partial, true, false, true),
        SelftestVerdict::Passed
    );
    assert_eq!(
        selftest_verdict(partial, false, true, true),
        SelftestVerdict::Failed
    );
    assert_eq!(
        selftest_verdict(partial, true, true, false),
        SelftestVerdict::Failed
    );
}

#[test]
fn offers_accumulate_types() {
    let mut mimes = OfferMimes::default();
    assert!(mimes.snapshot().is_empty());
    mimes.push("text/plain".to_owned());
    mimes.push("image/png".to_owned());
    assert_eq!(mimes.snapshot(), vec!["text/plain", "image/png"]);
}

#[test]
fn the_standard_protocol_is_preferred() {
    assert_eq!(preferred_protocol(true, true), Some(Protocol::Ext));
    assert_eq!(preferred_protocol(false, true), Some(Protocol::Wlr));
    assert_eq!(preferred_protocol(false, false), None);
    assert_eq!(Protocol::Ext.protocol_name(), "ext-data-control-v1");
    assert_eq!(Protocol::Wlr.protocol_name(), "zwlr-data-control-v1");
}
