use proxysvpn::logger::{
    clear, compute_log_path, export_text, init, log, log_file_path, snapshot, LoggerState,
    BUFFER_CAPACITY,
};

fn messages(state: &LoggerState, limit: Option<usize>) -> Vec<String> {
    snapshot(state, limit).into_iter().map(|l| l.message).collect()
}

#[test]
fn init_logs_a_start_line() {
    let mut st = LoggerState::new(None, None);
    let out = init(&mut st, 5);
    assert_eq!(out.console_line, "[app][info] logger initialized");
    assert!(out.file_append.is_none());
    let lines = snapshot(&st, None);
    assert_eq!(lines.len(), 1);
    assert_eq!(lines[0].ts_ms, 5);
    assert_eq!(lines[0].level, "info");
    assert_eq!(lines[0].source, "app");
}

#[test]
fn log_formats_console_and_file_lines() {
    let mut st = LoggerState::new(Some("/tmp/app.log".to_string()), None);
    let out = log(&mut st, 1500, "warn", "xray", "hello");
    assert_eq!(out.console_line, "[xray][warn] hello");
    let f = out.file_append.unwrap();
    assert_eq!(f.path, "/tmp/app.log");
    assert_eq!(f.line, "1970-01-01T00:00:01Z [warn] [xray] hello");
}

#[test]
fn buffer_keeps_the_most_recent_lines() {
    let mut st = LoggerState::new(None, None);
    for i in 0..(BUFFER_CAPACITY + 3) {
        log(&mut st, i as u128, "info", "app", &format!("m{}", i));
    }
    let all = snapshot(&st, None);
    assert_eq!(all.len(), BUFFER_CAPACITY);
    assert_eq!(all[0].message, "m3");
    assert_eq!(all[BUFFER_CAPACITY - 1].message, format!("m{}", BUFFER_CAPACITY + 2));
}

#[test]
fn snapshot_limits() {
    let mut st = LoggerState::new(None, None);
    log(&mut st, 1, "info", "app", "a");
    log(&mut st, 2, "info", "app", "b");
    log(&mut st, 3, "info", "app", "c");
    assert_eq!(messages(&st, Some(2)), vec!["b", "c"]);
    assert_eq!(messages(&st, Some(0)), Vec::<String>::new());
    assert_eq!(messages(&st, Some(10)), vec!["a", "b", "c"]);
    assert_eq!(messages(&st, None), vec!["a", "b", "c"]);
}

#[test]
fn clear_leaves_only_the_clear_notice() {
    let mut st = LoggerState::new(None, None);
    log(&mut st, 1, "info", "app", "a");
    log(&mut st, 2, "error", "tun", "b");
    let out = clear(&mut st, 9);
    assert_eq!(out.console_line, "[app][info] logs cleared by user");
    assert_eq!(messages(&st, None), vec!["logs cleared by user"]);
}

#[test]
fn log_file_path_is_reported() {
    assert_eq!(log_file_path(&LoggerState::new(None, None)), None);
    assert_eq!(
        log_file_path(&LoggerState::new(Some("/x/app.log".to_string()), None)),
        Some("/x/app.log".to_string())
    );
}

#[test]
fn export_without_header() {
    let mut st = LoggerState::new(None, None);
    log(&mut st, 0, "info", "app", "a");
    log(&mut st, 86_400_000, "warn", "tun", "b");
    assert_eq!(
        export_text(&st, false, 0, "0.1.0", "aarch64", "macos"),
        "1970-01-01T00:00:00Z [info] [app] a\n1970-01-02T00:00:00Z [warn] [tun] b\n"
    );
}

#[test]
fn export_with_header() {
    let mut st = LoggerState::new(None, None);
    log(&mut st, 0, "info", "app", "a");
    assert_eq!(
        export_text(&st, true, 1_704_067_199_999, "0.1.0", "aarch64", "macos"),
        "=== ProxysVPN Diagnostic Report ===\nGenerated: 2023-12-31T23:59:59Z\nApp version: 0.1.0\nOS arch: aarch64\nOS family: macos\n\n=== Log Lines ===\n1970-01-01T00:00:00Z [info] [app] a\n"
    );
}

#[test]
fn log_file_is_rotated_at_a_new_day() {
    let mut st = LoggerState::new(Some("/l/app.log".to_string()), None);
    let first = log(&mut st, 1_714_521_600_000, "info", "app", "a").file_append.unwrap();
    assert_eq!(first.rotate_to, None);
    let same_day = log(&mut st, 1_714_607_999_000, "info", "app", "b").file_append.unwrap();
    assert_eq!(same_day.rotate_to, None);
    let next_day = log(&mut st, 1_714_608_000_000, "info", "app", "c").file_append.unwrap();
    assert_eq!(next_day.rotate_to, Some("/l/app.log.2024-05-01".to_string()));
    assert_eq!(next_day.path, "/l/app.log");
    assert_eq!(next_day.line, "2024-05-02T00:00:00Z [info] [app] c");
    let later = log(&mut st, 1_714_608_001_000, "info", "app", "d").file_append.unwrap();
    assert_eq!(later.rotate_to, None);
}

#[test]
fn existing_log_file_from_an_earlier_day_is_rotated() {
    let mut st = LoggerState::new(Some("/l/app.log".to_string()), Some(86_400_000 * 3 + 5));
    let out = init(&mut st, 86_400_000 * 4).file_append.unwrap();
    assert_eq!(out.rotate_to, Some("/l/app.log.1970-01-04".to_string()));
    assert_eq!(out.line, "1970-01-05T00:00:00Z [info] [app] logger initialized");
    let mut st = LoggerState::new(Some("/l/app.log".to_string()), Some(86_400_000 * 4));
    assert_eq!(init(&mut st, 86_400_000 * 4 + 1).file_append.unwrap().rotate_to, None);
}

#[test]
fn clear_appends_its_notice_to_the_log_file() {
    let mut st = LoggerState::new(Some("/l/app.log".to_string()), None);
    log(&mut st, 1000, "info", "app", "a");
    let f = clear(&mut st, 2000).file_append.unwrap();
    assert_eq!(f.path, "/l/app.log");
    assert_eq!(f.line, "1970-01-01T00:00:02Z [info] [app] logs cleared by user");
    assert_eq!(f.rotate_to, None);
}

#[test]
fn log_path_from_home() {
    assert_eq!(
        compute_log_path(Some("/Users/ann".to_string())),
        Some("/Users/ann/Library/Logs/ProxysVPN/app.log".to_string())
    );
    assert_eq!(
        compute_log_path(Some("/Users/ann/".to_string())),
        Some("/Users/ann/Library/Logs/ProxysVPN/app.log".to_string())
    );
    assert_eq!(compute_log_path(Some(String::new())), Some("Library/Logs/ProxysVPN/app.log".to_string()));
    assert_eq!(compute_log_path(None), None);
}
