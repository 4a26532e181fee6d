use codex_logic::debug_logs::{
    build_filter, delete_query, ensure_delete_filter, non_empty_values, parse_i64_decimal,
    parse_timestamp, to_log_query, backfill_query, delete_report, vacuum_done, vacuum_intro,
    DebugLogLevel, DebugLogsCommand, DebugLogsError, DebugLogsStep, TimestampFlag,
};

fn command() -> DebugLogsCommand {
    DebugLogsCommand {
        codex_home: None,
        level: None,
        level_exact: None,
        from: None,
        to: None,
        target: Vec::new(),
        module: Vec::new(),
        file: Vec::new(),
        thread_id: Vec::new(),
        search: None,
        threadless: false,
        backfill: 50,
        compact: false,
        delete: false,
        yes: false,
        vacuum: false,
    }
}

#[test]
fn level_threshold_includes_more_severe_levels() {
    assert_eq!(
        DebugLogLevel::Warn.threshold_levels_upper(),
        vec!["WARN".to_string(), "ERROR".to_string()]
    );
    assert_eq!(
        DebugLogLevel::Trace.threshold_levels_upper(),
        vec![
            "TRACE".to_string(),
            "DEBUG".to_string(),
            "INFO".to_string(),
            "WARN".to_string(),
            "ERROR".to_string(),
        ]
    );
}

#[test]
fn exact_level_filters_only_that_level() {
    // logs --level-exact trace --delete
    let mut args = command();
    args.level_exact = Some(DebugLogLevel::Trace);
    args.delete = true;
    let filter = build_filter(&args).ok().expect("build filter");

    assert_eq!(filter.levels_upper, vec!["TRACE".to_string()]);
}

#[test]
fn delete_requires_a_filter() {
    // logs --delete
    let mut args = command();
    args.delete = true;
    let filter = build_filter(&args).ok().expect("build filter");

    assert!(ensure_delete_filter(&filter).is_err());
}

#[test]
fn delete_accepts_target_filter_without_confirmation() {
    // logs --delete --target noisy_crate
    let mut args = command();
    args.delete = true;
    args.target = vec!["noisy_crate".to_string()];
    let filter = build_filter(&args).ok().expect("build filter");

    assert!(args.delete);
    assert!(!args.yes);
    assert_eq!(filter.target_like, vec!["noisy_crate".to_string()]);
    assert!(ensure_delete_filter(&filter).is_ok());
}

#[test]
fn threshold_of_each_level_starts_with_that_level() {
    assert_eq!(DebugLogLevel::Error.threshold_levels_upper(), vec!["ERROR".to_string()]);
    assert_eq!(
        DebugLogLevel::Info.threshold_levels_upper(),
        vec!["INFO".to_string(), "WARN".to_string(), "ERROR".to_string()]
    );
    assert_eq!(DebugLogLevel::Debug.as_upper(), "DEBUG");
}

#[test]
fn minimum_level_selects_threshold() {
    let mut args = command();
    args.level = Some(DebugLogLevel::Info);
    let filter = build_filter(&args).ok().expect("build filter");
    assert_eq!(
        filter.levels_upper,
        vec!["INFO".to_string(), "WARN".to_string(), "ERROR".to_string()]
    );
}

#[test]
fn both_level_options_are_refused() {
    let mut args = command();
    args.level = Some(DebugLogLevel::Info);
    args.level_exact = Some(DebugLogLevel::Warn);
    let err = build_filter(&args).err().expect("conflict");
    assert!(matches!(err, DebugLogsError::ConflictingLevels));
    assert_eq!(err.message(), "--level and --level-exact cannot be used together");
}

#[test]
fn unreadable_from_is_refused_before_to() {
    let mut args = command();
    args.from = Some("yesterday".to_string());
    args.to = Some("also bad".to_string());
    let err = build_filter(&args).err().expect("bad from");
    match &err {
        DebugLogsError::InvalidTimestamp { flag, source } => {
            assert_eq!(*flag, TimestampFlag::From);
            assert_eq!(source.value, "yesterday");
            assert_eq!(source.message(), "expected RFC3339 or unix seconds, got yesterday");
            assert!(!source.cause.is_empty());
        }
        _ => panic!("expected a timestamp error"),
    }
    assert_eq!(err.message(), "failed to parse --from");
}

#[test]
fn unreadable_to_is_refused() {
    let mut args = command();
    args.from = Some("100".to_string());
    args.to = Some("soon".to_string());
    let err = build_filter(&args).err().expect("bad to");
    assert!(matches!(err, DebugLogsError::InvalidTimestamp { flag: TimestampFlag::To, .. }));
    assert_eq!(err.message(), "failed to parse --to");
}

#[test]
fn timestamps_accept_seconds_and_rfc3339() {
    let mut args = command();
    args.from = Some("1700000000".to_string());
    args.to = Some("2024-01-01T00:00:00Z".to_string());
    let filter = build_filter(&args).ok().expect("timestamps");
    assert_eq!(filter.from_ts, Some(1700000000));
    assert_eq!(filter.to_ts, Some(1704067200));
}

#[test]
fn parse_timestamp_reads_offsets() {
    assert_eq!(parse_timestamp("1970-01-01T01:00:00+01:00").ok(), Some(0));
    assert_eq!(parse_timestamp("-5").ok(), Some(-5));
    assert!(parse_timestamp("").is_err());
    assert!(parse_timestamp("12 ").is_err());
}

#[test]
fn decimal_parsing_matches_integer_parsing() {
    for text in [
        "0", "+7", "-0", "42", "-9223372036854775808", "9223372036854775807",
        "9223372036854775808", "-9223372036854775809", "", "+", "-", "1a", " 1", "00012",
        "99999999999999999999999",
    ] {
        assert_eq!(parse_i64_decimal(text), text.parse::<i64>().ok(), "{text}");
    }
}

#[test]
fn empty_values_are_dropped() {
    let values = vec![
        "a".to_string(),
        String::new(),
        "b".to_string(),
        String::new(),
    ];
    assert_eq!(non_empty_values(&values), vec!["a".to_string(), "b".to_string()]);
}

#[test]
fn empty_search_and_empty_targets_do_not_filter() {
    let mut args = command();
    args.search = Some(String::new());
    args.target = vec![String::new()];
    let filter = build_filter(&args).ok().expect("filter");
    assert_eq!(filter.search, None);
    assert!(filter.target_like.is_empty());
    let err = delete_query(&filter).err().expect("no filter");
    assert!(matches!(err, DebugLogsError::DeleteWithoutFilter));
    assert_eq!(err.message(), "--delete requires at least one filter");
}

#[test]
fn threadless_alone_is_a_filter() {
    let mut args = command();
    args.threadless = true;
    args.search = Some("needle".to_string());
    let filter = build_filter(&args).ok().expect("filter");
    assert!(filter.include_threadless);
    assert_eq!(filter.search, Some("needle".to_string()));
    let query = delete_query(&filter).ok().expect("query");
    assert_eq!(query.limit, None);
    assert!(!query.descending);
    assert_eq!(query.search, Some("needle".to_string()));
}

#[test]
fn queries_copy_the_filter() {
    let mut args = command();
    args.module = vec!["core".to_string()];
    args.file = vec!["lib.rs".to_string()];
    args.thread_id = vec!["t1".to_string()];
    let filter = build_filter(&args).ok().expect("filter");
    let query = to_log_query(&filter, Some(7), Some(3), true);
    assert_eq!(query.module_like, vec!["core".to_string()]);
    assert_eq!(query.file_like, vec!["lib.rs".to_string()]);
    assert_eq!(query.thread_ids, vec!["t1".to_string()]);
    assert_eq!(query.limit, Some(7));
    assert_eq!(query.after_id, Some(3));
    assert!(query.descending);
}

#[test]
fn backfill_queries_newest_first_unless_zero() {
    let filter = build_filter(&command()).ok().expect("filter");
    assert!(backfill_query(&filter, 0).is_none());
    let query = backfill_query(&filter, 50).expect("query");
    assert_eq!(query.limit, Some(50));
    assert!(query.descending);
}

#[test]
fn steps_follow_the_options() {
    let mut args = command();
    assert_eq!(args.steps(), vec![DebugLogsStep::PrintBackfill { limit: 50, compact: false }]);
    args.delete = true;
    assert_eq!(args.steps(), vec![DebugLogsStep::DeleteMatching { confirmed: false }]);
    args.vacuum = true;
    args.yes = true;
    assert_eq!(
        args.steps(),
        vec![
            DebugLogsStep::DeleteMatching { confirmed: true },
            DebugLogsStep::Vacuum { confirmed: true }
        ]
    );
    args.delete = false;
    assert_eq!(args.steps(), vec![DebugLogsStep::Vacuum { confirmed: true }]);
}

#[test]
fn reports_name_the_database() {
    assert_eq!(
        delete_report(true, 12, "/tmp/logs_2.sqlite"),
        "Deleted 12 matching log rows from /tmp/logs_2.sqlite."
    );
    assert_eq!(
        delete_report(false, 0, "/tmp/logs_2.sqlite"),
        "Would delete 0 matching log rows from /tmp/logs_2.sqlite. Re-run with --yes to delete."
    );
    assert_eq!(vacuum_intro(true, "db"), "Running VACUUM on db.");
    assert_eq!(
        vacuum_intro(false, "db"),
        "Would run VACUUM on db. Re-run with --yes to compact the file."
    );
    assert_eq!(vacuum_done("db"), "Vacuumed db.");
}
