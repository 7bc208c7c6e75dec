use humanlog::{
    failure_notice, render_line, ColourChoice, DebugMode, HumanLogger, Level, LocalTime, LogWriter,
    Record, Writable,
};

/// An in-memory destination that can be told to fail.
#[derive(Debug, Default)]
struct Probe {
    text: String,
    writes: usize,
    flushes: usize,
    fail_writes: bool,
    fail_flush: bool,
}

impl Probe {
    fn failing() -> Probe {
        Probe { fail_writes: true, fail_flush: true, ..Probe::default() }
    }
}

impl Writable for Probe {
    fn write_text(&mut self, text: &str) -> Result<(), String> {
        if self.fail_writes {
            return Err("broken pipe".to_string());
        }
        self.writes += 1;
        self.text.push_str(text);
        Ok(())
    }

    fn flush(&mut self) -> Result<(), String> {
        if self.fail_flush {
            return Err("device gone".to_string());
        }
        self.flushes += 1;
        Ok(())
    }
}

fn record(level: Level, target: &str, module: Option<&str>, message: &str) -> Record {
    Record {
        level,
        target: target.to_string(),
        module: module.map(|m| m.to_string()),
        file: None,
        line: None,
        message: message.to_string(),
    }
}

fn located(level: Level, file: Option<&str>, line: Option<u32>, message: &str) -> Record {
    Record {
        level,
        target: "full".to_string(),
        module: Some("full".to_string()),
        file: file.map(|f| f.to_string()),
        line,
        message: message.to_string(),
    }
}

fn epoch() -> LocalTime {
    LocalTime { secs: 0, nanos: 0, offset: 0 }
}

fn sink(filter: Vec<Level>, label: &str, probe: Probe) -> LogWriter<Probe> {
    LogWriter::new(probe, ColourChoice::No, false, filter, label.to_string())
}

#[test]
fn mode_from_count() {
    assert_eq!(DebugMode::from_num(0), DebugMode::HumanFriendly);
    assert_eq!(DebugMode::from_num(1), DebugMode::Debug);
    assert_eq!(DebugMode::from_num(2), DebugMode::Full);
    assert_eq!(DebugMode::from_num(7), DebugMode::Full);
    assert_eq!(DebugMode::from_num(u32::MAX), DebugMode::Full);
}

#[test]
fn mode_from_flags_trace_outranks_debug() {
    assert_eq!(DebugMode::from_flags(false, false), DebugMode::HumanFriendly);
    assert_eq!(DebugMode::from_flags(false, true), DebugMode::Debug);
    assert_eq!(DebugMode::from_flags(true, false), DebugMode::Full);
    assert_eq!(DebugMode::from_flags(true, true), DebugMode::Full);
}

#[test]
fn global_threshold_per_mode() {
    assert_eq!(DebugMode::HumanFriendly.max_level(), Level::Warn);
    assert_eq!(DebugMode::Debug.max_level(), Level::Debug);
    assert_eq!(DebugMode::Full.max_level(), Level::Trace);
}

#[test]
fn colour_choice_resolution() {
    assert!(ColourChoice::Yes.resolve(false));
    assert!(ColourChoice::Yes.resolve(true));
    assert!(!ColourChoice::No.resolve(true));
    assert!(!ColourChoice::No.resolve(false));
    assert!(ColourChoice::Auto.resolve(true));
    assert!(!ColourChoice::Auto.resolve(false));
}

#[test]
fn log_writer_keeps_its_settings() {
    let w = LogWriter::new(Probe::default(), ColourChoice::Auto, true, vec![Level::Error, Level::Trace], "file".to_string());
    assert_eq!(w.label(), "file");
    assert!(w.colour());
    assert!(w.accepts(Level::Error));
    assert!(w.accepts(Level::Trace));
    assert!(!w.accepts(Level::Info));
    let plain = LogWriter::new(Probe::default(), ColourChoice::Auto, false, vec![], "buffer".to_string());
    assert!(!plain.colour());
    assert!(!plain.accepts(Level::Error));
}

#[test]
fn standard_sinks_split_levels() {
    let out = LogWriter::stdout(Probe::default(), false);
    assert_eq!(out.label(), "stdout");
    assert!(out.accepts(Level::Trace) && out.accepts(Level::Debug) && out.accepts(Level::Info));
    assert!(!out.accepts(Level::Warn) && !out.accepts(Level::Error));
    let err = LogWriter::stderr(Probe::default(), true);
    assert_eq!(err.label(), "stderr");
    assert!(err.colour());
    assert!(err.accepts(Level::Warn) && err.accepts(Level::Error));
    assert!(!err.accepts(Level::Trace) && !err.accepts(Level::Debug) && !err.accepts(Level::Info));
}

#[test]
fn friendly_error_goes_to_stderr() {
    let mut logger = HumanLogger::terminal(Probe::default(), false, Probe::default(), false, DebugMode::HumanFriendly);
    let report = logger.log(&record(Level::Error, "app", Some("app"), "disk full"), &epoch());
    assert_eq!(report.len(), 1);
    assert_eq!(report[0].sink, 1);
    assert_eq!(report[0].line, "ERROR: disk full\n");
    assert_eq!(logger.writer(1).text, "ERROR: disk full\n");
    assert_eq!(logger.writer(0).text, "");
}

#[test]
fn friendly_warning_word() {
    let mut logger = HumanLogger::terminal(Probe::default(), false, Probe::default(), false, DebugMode::HumanFriendly);
    logger.log(&record(Level::Warn, "app", None, "low disk"), &epoch());
    logger.log(&record(Level::Info, "app", None, "started"), &epoch());
    assert_eq!(logger.writer(1).text, "WARNING: low disk\n");
    assert_eq!(logger.writer(0).text, "INFO: started\n");
}

#[test]
fn debug_omits_module_equal_to_target() {
    let mut logger = HumanLogger::terminal(Probe::default(), false, Probe::default(), false, DebugMode::Debug);
    let report = logger.log(&record(Level::Info, "app", Some("app"), "hello"), &epoch());
    assert_eq!(report.len(), 1);
    assert_eq!(logger.writer(0).text, "[1970-01-01T00:00:00Z INFO app] hello\n");
    assert_eq!(logger.writer(1).text, "");
}

#[test]
fn debug_shows_differing_module() {
    let mut logger = HumanLogger::terminal(Probe::default(), false, Probe::default(), false, DebugMode::Debug);
    logger.log(&record(Level::Debug, "app", Some("app::net"), "dialing"), &epoch());
    logger.log(&record(Level::Warn, "app", None, "slow"), &epoch());
    assert_eq!(logger.writer(0).text, "[1970-01-01T00:00:00Z DEBUG app::net app] dialing\n");
    assert_eq!(logger.writer(1).text, "[1970-01-01T00:00:00Z WARNING app] slow\n");
}

#[test]
fn debug_stamp_is_local_time() {
    let t = LocalTime { secs: 1_700_000_000, nanos: 123_456_789, offset: 3600 };
    let line = render_line(&record(Level::Error, "app", None, "x"), DebugMode::Debug, false, &t);
    assert_eq!(line, "[2023-11-14T23:13:20Z ERROR app] x");
}

#[test]
fn clock_needed_outside_friendly_mode() {
    let friendly = HumanLogger::terminal(Probe::default(), false, Probe::default(), false, DebugMode::HumanFriendly);
    assert!(!friendly.needs_clock());
    let debug = HumanLogger::terminal(Probe::default(), false, Probe::default(), false, DebugMode::Debug);
    assert!(debug.needs_clock());
    let full: HumanLogger<Probe> = HumanLogger::new(vec![], DebugMode::Full);
    assert!(full.needs_clock());
}

#[test]
fn friendly_line_ignores_clock() {
    let mut logger = HumanLogger::terminal(Probe::default(), false, Probe::default(), false, DebugMode::HumanFriendly);
    let late = LocalTime { secs: 1_700_000_000, nanos: 5, offset: -3600 };
    logger.log(&record(Level::Error, "app", None, "a"), &epoch());
    logger.log(&record(Level::Error, "app", None, "a"), &late);
    assert_eq!(logger.writer(1).text, "ERROR: a\nERROR: a\n");
}

#[test]
fn stamps_at_the_ends_of_the_range() {
    let first = LocalTime::new(humanlog::EARLIEST_SECS, 0, -3600).unwrap();
    let line = render_line(&located(Level::Info, None, None, "m"), DebugMode::Full, false, &first);
    assert!(line.ends_with(" INFO full] m"));
    let line = render_line(&located(Level::Info, None, None, "m"), DebugMode::Debug, false, &first);
    assert!(line.ends_with(" INFO full] m"));
    let last = LocalTime::new(humanlog::LATEST_SECS, 999_999_999, 86_399).unwrap();
    let line = render_line(&located(Level::Info, None, None, "m"), DebugMode::Full, false, &last);
    assert!(line.ends_with(" INFO full] m"));
}

#[test]
fn before_the_epoch() {
    let t = LocalTime::new(-1, 0, 0).unwrap();
    let line = render_line(&record(Level::Warn, "app", None, "old"), DebugMode::Debug, false, &t);
    assert_eq!(line, "[1969-12-31T23:59:59Z WARNING app] old");
}

#[test]
fn full_layout_with_location() {
    let t = LocalTime { secs: 1_700_000_000, nanos: 123_456_789, offset: 3600 };
    let line = render_line(&located(Level::Error, Some("src/main.rs"), Some(42), "boom"), DebugMode::Full, false, &t);
    assert_eq!(line, "[2023-11-14T23:13:20.123456789+01:00 ERROR src/main.rs:42 full] boom");
}

#[test]
fn full_layout_without_line_or_file() {
    let t = LocalTime { secs: 1_700_000_000, nanos: 0, offset: 0 };
    let no_line = render_line(&located(Level::Trace, Some("src/lib.rs"), None, "m"), DebugMode::Full, false, &t);
    assert_eq!(no_line, "[2023-11-14T22:13:20+00:00 TRACE src/lib.rs full] m");
    let no_file = render_line(&located(Level::Info, None, Some(9), "m"), DebugMode::Full, false, &t);
    assert_eq!(no_file, "[2023-11-14T22:13:20+00:00 INFO full] m");
}

#[test]
fn full_layout_line_numbers() {
    let t = epoch();
    for (n, text) in [(0u32, "0"), (7, "7"), (10, "10"), (4_294_967_295, "4294967295")] {
        let line = render_line(&located(Level::Debug, Some("a.rs"), Some(n), "m"), DebugMode::Full, false, &t);
        assert_eq!(line, format!("[1970-01-01T00:00:00+00:00 DEBUG a.rs:{} full] m", text));
    }
}

#[test]
fn full_layout_negative_offset() {
    let t = LocalTime { secs: 0, nanos: 500_000_000, offset: -5 * 3600 };
    let line = render_line(&located(Level::Warn, None, None, "m"), DebugMode::Full, false, &t);
    assert_eq!(line, "[1969-12-31T19:00:00.500-05:00 WARNING full] m");
}

#[test]
fn coloured_friendly_line() {
    let line = render_line(&record(Level::Error, "app", None, "disk full"), DebugMode::HumanFriendly, true, &epoch());
    assert_eq!(line, "\u{1b}[31m\u{1b}[1mERROR\u{1b}[0m: disk full");
    let info = render_line(&record(Level::Info, "app", None, "ok"), DebugMode::HumanFriendly, true, &epoch());
    assert_eq!(info, "\u{1b}[32m\u{1b}[1mINFO\u{1b}[0m: ok");
}

#[test]
fn coloured_debug_line() {
    let line = render_line(&record(Level::Trace, "app", Some("app::db"), "q"), DebugMode::Debug, true, &epoch());
    assert_eq!(
        line,
        "[\u{1b}[2m1970-01-01T00:00:00Z\u{1b}[0m \u{1b}[1mTRACE\u{1b}[0m \u{1b}[2mapp::db\u{1b}[0m \u{1b}[1mapp\u{1b}[0m] q"
    );
}

#[test]
fn uncoloured_line_has_no_escape() {
    for mode in [DebugMode::HumanFriendly, DebugMode::Debug, DebugMode::Full] {
        let line = render_line(&located(Level::Error, Some("f.rs"), Some(1), "m"), mode, false, &epoch());
        assert!(!line.contains('\u{1b}'));
    }
}

#[test]
fn rendering_is_deterministic() {
    let t = LocalTime { secs: 86_399, nanos: 1, offset: 60 };
    let r = located(Level::Info, Some("x.rs"), Some(3), "same");
    for mode in [DebugMode::HumanFriendly, DebugMode::Debug, DebugMode::Full] {
        for colour in [false, true] {
            assert_eq!(render_line(&r, mode, colour, &t), render_line(&r, mode, colour, &t));
        }
    }
}

#[test]
fn sink_for_trace_only_gets_nothing_else() {
    let mut logger = HumanLogger::new(vec![sink(vec![Level::Trace], "trace", Probe::default())], DebugMode::Full);
    let report = logger.log(&record(Level::Warn, "app", None, "ignored"), &epoch());
    assert!(report.is_empty());
    assert_eq!(logger.writer(0).text, "");
    assert_eq!(logger.writer(0).writes, 0);
    assert!(logger.is_live(0));
}

#[test]
fn failing_sink_reported_once() {
    let mut logger = HumanLogger::new(
        vec![sink(vec![Level::Error], "broken", Probe::failing()), sink(vec![Level::Error], "ok", Probe::default())],
        DebugMode::HumanFriendly,
    );
    let first = logger.log(&record(Level::Error, "app", None, "one"), &epoch());
    assert_eq!(first.len(), 2);
    assert_eq!(first[0].sink, 0);
    assert_eq!(first[0].error.as_deref(), Some("broken pipe"));
    assert_eq!(first[1].sink, 1);
    assert_eq!(first[1].error, None);
    let failures: Vec<String> = first
        .iter()
        .filter_map(|d| d.error.as_ref().map(|e| logger.notice(d.sink, e, false, false)))
        .collect();
    assert_eq!(failures, vec!["WARNING: Failed to write to writer 'broken': broken pipe (will not attempt again)".to_string()]);
    assert!(!logger.is_live(0));
    assert!(logger.is_live(1));
    let second = logger.log(&record(Level::Error, "app", None, "two"), &epoch());
    assert_eq!(second.len(), 1);
    assert_eq!(second[0].sink, 1);
    assert!(second.iter().all(|d| d.error.is_none()));
    assert_eq!(logger.writer(1).text, "ERROR: one\nERROR: two\n");
}

#[test]
fn failed_sink_is_skipped_by_flush() {
    let mut logger = HumanLogger::new(
        vec![sink(vec![Level::Info], "broken", Probe { fail_writes: true, ..Probe::default() })],
        DebugMode::HumanFriendly,
    );
    logger.log(&record(Level::Info, "app", None, "x"), &epoch());
    let report = logger.flush();
    assert!(report.is_empty());
    assert_eq!(logger.writer(0).flushes, 0);
}

#[test]
fn shared_sink_flushed_once() {
    let mut logger = HumanLogger::new(vec![sink(vec![Level::Warn, Level::Error], "both", Probe::default())], DebugMode::Debug);
    let report = logger.flush();
    assert_eq!(report.len(), 1);
    assert_eq!(report[0].sink, 0);
    assert_eq!(logger.writer(0).flushes, 1);
}

#[test]
fn flush_reaches_inert_sink_and_skips_failed() {
    let mut logger = HumanLogger::new(
        vec![
            sink(vec![], "inert", Probe::default()),
            sink(vec![Level::Error], "flaky", Probe { fail_flush: true, ..Probe::default() }),
            sink(vec![Level::Error, Level::Trace], "fine", Probe::default()),
        ],
        DebugMode::Full,
    );
    let first = logger.flush();
    assert_eq!(first.iter().map(|a| a.sink).collect::<Vec<_>>(), vec![0, 1, 2]);
    assert_eq!(first[1].error.as_deref(), Some("device gone"));
    assert_eq!(
        logger.notice(1, "device gone", true, false),
        "WARNING: Failed to flush writer 'flaky': device gone (will not attempt again)"
    );
    assert!(!logger.is_live(1));
    let second = logger.flush();
    assert_eq!(second.iter().map(|a| a.sink).collect::<Vec<_>>(), vec![0, 2]);
    assert_eq!(logger.writer(0).flushes, 2);
    assert_eq!(logger.writer(2).flushes, 2);
}

#[test]
fn inert_sink_never_written() {
    let mut logger = HumanLogger::new(vec![sink(vec![], "inert", Probe::default())], DebugMode::Full);
    for level in [Level::Trace, Level::Debug, Level::Info, Level::Warn, Level::Error] {
        assert!(logger.log(&record(level, "app", None, "m"), &epoch()).is_empty());
        assert!(!logger.enabled(level));
    }
    assert_eq!(logger.writer(0).writes, 0);
}

#[test]
fn duplicate_levels_count_once() {
    let mut logger = HumanLogger::new(vec![sink(vec![Level::Error, Level::Error], "twice", Probe::default())], DebugMode::HumanFriendly);
    let report = logger.log(&record(Level::Error, "app", None, "once"), &epoch());
    assert_eq!(report.len(), 1);
    assert_eq!(logger.writer(0).text, "ERROR: once\n");
}

#[test]
fn dispatch_in_configuration_order() {
    let mut logger = HumanLogger::new(
        vec![
            sink(vec![Level::Info], "a", Probe::default()),
            sink(vec![Level::Warn], "b", Probe::default()),
            sink(vec![Level::Info, Level::Warn], "c", Probe::default()),
        ],
        DebugMode::HumanFriendly,
    );
    let report = logger.log(&record(Level::Info, "app", None, "m"), &epoch());
    assert_eq!(report.iter().map(|d| d.sink).collect::<Vec<_>>(), vec![0, 2]);
    let report = logger.log(&record(Level::Warn, "app", None, "m"), &epoch());
    assert_eq!(report.iter().map(|d| d.sink).collect::<Vec<_>>(), vec![1, 2]);
    assert_eq!(logger.writer(2).text, "INFO: m\nWARNING: m\n");
    assert_eq!(logger.label(2), "c");
    assert_eq!(logger.sink_count(), 3);
}

#[test]
fn colour_per_sink() {
    let mut logger = HumanLogger::new(
        vec![
            LogWriter::new(Probe::default(), ColourChoice::Yes, false, vec![Level::Warn], "tty".to_string()),
            LogWriter::new(Probe::default(), ColourChoice::No, true, vec![Level::Warn], "file".to_string()),
        ],
        DebugMode::HumanFriendly,
    );
    logger.log(&record(Level::Warn, "app", None, "hot"), &epoch());
    assert_eq!(logger.writer(0).text, "\u{1b}[33m\u{1b}[1mWARNING\u{1b}[0m: hot\n");
    assert_eq!(logger.writer(1).text, "WARNING: hot\n");
}

#[test]
fn enabled_follows_live_sinks() {
    let mut logger = HumanLogger::new(
        vec![
            sink(vec![Level::Error], "e1", Probe::failing()),
            sink(vec![Level::Error, Level::Info], "e2", Probe { fail_writes: true, ..Probe::default() }),
        ],
        DebugMode::Debug,
    );
    assert!(logger.enabled(Level::Error));
    assert!(logger.enabled(Level::Info));
    assert!(!logger.enabled(Level::Warn));
    let report = logger.log(&record(Level::Error, "app", None, "m"), &epoch());
    assert_eq!(report.len(), 2);
    assert!(!logger.enabled(Level::Error));
    assert!(!logger.enabled(Level::Info));
}

#[test]
fn terminal_levels_enabled() {
    let logger = HumanLogger::terminal(Probe::default(), false, Probe::default(), false, DebugMode::Debug);
    for level in [Level::Trace, Level::Debug, Level::Info, Level::Warn, Level::Error] {
        assert!(logger.enabled(level));
    }
    assert_eq!(logger.mode(), DebugMode::Debug);
    assert_eq!(logger.label(0), "stdout");
    assert_eq!(logger.label(1), "stderr");
}

#[test]
fn notice_colours_warning_word() {
    assert_eq!(
        failure_notice("out", "closed", false, true),
        "\u{1b}[33m\u{1b}[1mWARNING\u{1b}[0m: Failed to write to writer 'out': closed (will not attempt again)"
    );
    assert_eq!(
        failure_notice("out", "closed", true, false),
        "WARNING: Failed to flush writer 'out': closed (will not attempt again)"
    );
}

#[test]
fn local_time_ranges() {
    assert!(LocalTime::new(0, 0, 0).is_some());
    assert!(LocalTime::new(-1, 0, 0).is_some());
    assert!(LocalTime::new(humanlog::EARLIEST_SECS, 0, 0).is_some());
    assert!(LocalTime::new(humanlog::EARLIEST_SECS - 1, 0, 0).is_none());
    assert!(LocalTime::new(0, 1_000_000_000, 0).is_none());
    assert!(LocalTime::new(0, 999_999_999, 86_399).is_some());
    assert!(LocalTime::new(0, 0, 86_400).is_none());
    assert!(LocalTime::new(0, 0, -86_400).is_none());
    assert!(LocalTime::new(humanlog::LATEST_SECS, 0, 0).is_some());
    assert!(LocalTime::new(humanlog::LATEST_SECS + 1, 0, 0).is_none());
}
