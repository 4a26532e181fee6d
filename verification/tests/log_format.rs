use codex_logic::log_format::{backfill_lines, format_row, level, message, truncate, ts, LogRow};

fn row() -> LogRow {
    LogRow {
        id: 7,
        ts: 0,
        ts_nanos: 0,
        level: "info".to_string(),
        target: "codex_core".to_string(),
        message: Some("hello".to_string()),
        module: None,
        file: Some("src/lib.rs".to_string()),
        line: Some(12),
        thread_id: None,
    }
}

#[test]
fn short_messages_are_kept_whole() {
    assert_eq!(truncate("hello"), "hello");
    let exact = "x".repeat(4096);
    assert_eq!(truncate(&exact), exact);
}

#[test]
fn long_messages_are_cut_at_the_byte_limit() {
    let long = "y".repeat(5000);
    let expected = format!("{} ... [truncated 904 bytes]", "y".repeat(4096));
    assert_eq!(truncate(&long), expected);
}

#[test]
fn truncation_respects_character_boundaries() {
    // 4095 ASCII bytes followed by a two-byte character straddling the limit.
    let text = format!("{}é{}", "a".repeat(4095), "b".repeat(10));
    let expected = format!("{} ... [truncated 12 bytes]", "a".repeat(4095));
    assert_eq!(truncate(&text), expected);
}

#[test]
fn compact_messages_escape_newlines() {
    assert_eq!(message("a\nb", true), "\u{1b}[1ma\\nb\u{1b}[0m");
    assert_eq!(message("a\nb", false), "\u{1b}[1ma\nb\u{1b}[0m");
}

#[test]
fn levels_are_padded_and_colored() {
    assert_eq!(level("error"), "\u{1b}[1m\u{1b}[31merror\u{1b}[39m\u{1b}[0m");
    assert_eq!(level("WARN"), "\u{1b}[1m\u{1b}[33mWARN \u{1b}[39m\u{1b}[0m");
    assert_eq!(level("Info"), "\u{1b}[1m\u{1b}[32mInfo \u{1b}[39m\u{1b}[0m");
    assert_eq!(level("debug"), "\u{1b}[1m\u{1b}[34mdebug\u{1b}[39m\u{1b}[0m");
    assert_eq!(level("TRACE"), "\u{1b}[1m\u{1b}[35mTRACE\u{1b}[39m\u{1b}[0m");
    assert_eq!(level("x"), "\u{1b}[1mx    \u{1b}[0m");
    assert_eq!(level("verbose"), "\u{1b}[1mverbose\u{1b}[0m");
}

#[test]
fn timestamps_render_through_chrono() {
    assert_eq!(ts(0, 0, true), "00:00:00");
    assert_eq!(ts(0, 0, false), "1970-01-01T00:00:00.000Z");
    assert_eq!(ts(1704067201, 500_000_000, false), "2024-01-01T00:00:01.500Z");
    assert_eq!(ts(3661, -1, true), "01:01:01");
}

#[test]
fn unrepresentable_timestamps_fall_back_to_numbers() {
    assert_eq!(ts(i64::MAX, 5, false), "9223372036854775807.000000005Z");
    assert_eq!(ts(i64::MIN, -5, true), "-9223372036854775808.-00000005Z");
}

#[test]
fn full_rows_show_every_part() {
    let text = format_row(&row(), false);
    let expected = format!(
        "\u{1b}[2m1970-01-01T00:00:00.000Z\u{1b}[0m #7 {} [\u{1b}[2m\u{1b}[34m-\u{1b}[39m\u{1b}[0m] \u{1b}[2mcodex_core\u{1b}[0m\u{1b}[2m src/lib.rs:12\u{1b}[0m - \u{1b}[1mhello\u{1b}[0m",
        level("info")
    );
    assert_eq!(text, expected);
}

#[test]
fn compact_rows_show_time_level_and_message() {
    let mut r = row();
    r.message = None;
    let text = format_row(&r, true);
    let expected = format!("\u{1b}[2m00:00:00\u{1b}[0m {} \u{1b}[1m\u{1b}[0m", level("info"));
    assert_eq!(text, expected);
}

#[test]
fn rows_without_line_show_file_only() {
    let mut r = row();
    r.line = None;
    r.thread_id = Some("t-1".to_string());
    let text = format_row(&r, false);
    assert!(text.contains("\u{1b}[2m src/lib.rs\u{1b}[0m - "));
    assert!(text.contains("[\u{1b}[2m\u{1b}[34mt-1\u{1b}[39m\u{1b}[0m]"));
    r.file = None;
    let text = format_row(&r, false);
    assert!(text.contains("\u{1b}[2mcodex_core\u{1b}[0m - "));
}

#[test]
fn backfill_prints_oldest_first() {
    let mut newest = row();
    newest.id = 2;
    let mut oldest = row();
    oldest.id = 1;
    let lines = backfill_lines(&vec![newest, oldest], true);
    assert_eq!(lines.len(), 2);
    let mut first = row();
    first.id = 1;
    assert_eq!(lines[0], format_row(&first, true));
}

#[test]
fn clock_times_span_the_representable_days() {
    assert_eq!(ts(-8334601228800, 0, true), "00:00:00");
    assert_eq!(ts(-8334601228801, 0, true), "-8334601228801.000000000Z");
    assert_eq!(ts(8210266876799, 0, true), "23:59:59");
    assert_eq!(ts(8210266876800, 0, true), "8210266876800.000000000Z");
    assert_eq!(ts(-8334601228800, 0, false), "-262143-01-01T00:00:00.000Z");
}

#[test]
fn leap_seconds_show_as_second_sixty() {
    assert_eq!(ts(59, 1_500_000_000, true), "00:00:60");
    assert_eq!(ts(58, 1_500_000_000, true), "58.1500000000Z");
}
