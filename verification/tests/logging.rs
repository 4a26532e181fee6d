use codex_logic::logging::{
    rotate_log, rotate_oversized_log, RotatingLogWriter, WritePlan, TUI_LOG_MAX_BYTES,
};

#[test]
fn log_under_limit_is_kept_and_appended() {
    // An existing log "old" under a limit of 8, then a write of "new".
    assert!(!rotate_oversized_log(Some(3), 8));
    let mut writer = RotatingLogWriter::new(3, 8);
    let plan = writer.plan_write(3);
    assert_eq!(plan, WritePlan { rotate_first: false, skip: 0 });
    writer.wrote(3 - plan.skip);
    assert_eq!(writer.current_len, 6);
}

#[test]
fn oversized_startup_log_rotates_to_bounded_tail() {
    // An existing log "0123456789abcdef" over a limit of 8 keeps "89abcdef".
    assert!(rotate_oversized_log(Some(16), 8));
    let (keep, seek_back) = rotate_log(8, 16);
    assert_eq!((keep, seek_back), (8, 8));
    assert_eq!(&"0123456789abcdef"[16 - keep as usize..], "89abcdef");
    let mut writer = RotatingLogWriter::new(0, 8);
    let plan = writer.plan_write(5);
    assert_eq!(plan, WritePlan { rotate_first: false, skip: 0 });
    writer.wrote(5);
    assert_eq!(writer.current_len, 5);
}

#[test]
fn write_that_would_exceed_limit_rotates_first() {
    // Writes "1234567" then "89" under a limit of 8: the backup keeps "1234567".
    let mut writer = RotatingLogWriter::new(0, 8);
    let plan = writer.plan_write(7);
    assert!(!plan.rotate_first);
    writer.wrote(7);
    let plan = writer.plan_write(2);
    assert!(plan.rotate_first);
    assert_eq!(rotate_log(8, writer.current_len), (7, 7));
    writer.rotated();
    assert_eq!(writer.current_len, 0);
    writer.wrote(2 - plan.skip);
    assert_eq!(writer.current_len, 2);
}

#[test]
fn single_large_write_keeps_its_tail() {
    // A write of "0123456789abcdef" under a limit of 8 leaves "89abcdef".
    let mut writer = RotatingLogWriter::new(0, 8);
    let plan = writer.plan_write(16);
    assert_eq!(plan, WritePlan { rotate_first: true, skip: 8 });
    assert_eq!(&"0123456789abcdef"[plan.skip..], "89abcdef");
    writer.rotated();
    writer.wrote(16 - plan.skip);
    assert_eq!(writer.current_len, 8);
}

#[test]
fn missing_log_is_not_rotated() {
    assert!(!rotate_oversized_log(None, 8));
    assert!(!rotate_oversized_log(Some(8), 8));
    assert_eq!(TUI_LOG_MAX_BYTES, 10 * 1024 * 1024);
}

#[test]
fn counters_saturate() {
    let mut writer = RotatingLogWriter::new(u64::MAX - 1, u64::MAX);
    writer.wrote(5);
    assert_eq!(writer.current_len, u64::MAX);
    let plan = writer.plan_write(1);
    assert!(!plan.rotate_first);
}

#[test]
fn rotation_keeps_whole_short_log() {
    assert_eq!(rotate_log(8, 3), (3, 3));
    assert_eq!(rotate_log(u64::MAX, u64::MAX), (u64::MAX, i64::MAX));
}

fn apply_write(writer: &mut RotatingLogWriter, log: &mut Vec<u8>, backup: &mut Option<Vec<u8>>, buf: &[u8]) {
    let plan = writer.plan_write(buf.len());
    if plan.rotate_first {
        let (keep, _) = rotate_log(writer.max_bytes, log.len() as u64);
        *backup = Some(log[log.len() - keep as usize..].to_vec());
        log.clear();
        writer.rotated();
    }
    log.extend_from_slice(&buf[plan.skip..]);
    writer.wrote(buf.len() - plan.skip);
}

#[test]
fn writes_keep_the_log_contents_within_the_limit() {
    let mut writer = RotatingLogWriter::new(3, 8);
    let mut log = b"abc".to_vec();
    let mut backup = None;
    apply_write(&mut writer, &mut log, &mut backup, b"defg");
    assert_eq!(log, b"abcdefg".to_vec());
    assert_eq!(backup, None);
    apply_write(&mut writer, &mut log, &mut backup, b"hij");
    assert_eq!(backup, Some(b"abcdefg".to_vec()));
    assert_eq!(log, b"hij".to_vec());
    apply_write(&mut writer, &mut log, &mut backup, b"0123456789");
    assert_eq!(backup, Some(b"hij".to_vec()));
    assert_eq!(log, b"23456789".to_vec());
    assert_eq!(writer.current_len, log.len() as u64);
}
