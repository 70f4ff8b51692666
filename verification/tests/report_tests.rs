use quietrun::history::StreamHistory;
use quietrun::report::{
    color_env_overrides, failure_banner, format_i32, spawn_failure_message, wrap_up,
    SpawnErrorKind,
};

fn history_of(lines: &[&str]) -> StreamHistory {
    let mut h = StreamHistory::new();
    for l in lines {
        h.record(l.to_string());
    }
    h
}

#[test]
fn history_keeps_every_line_in_emission_order() {
    let mut h = StreamHistory::new();
    assert_eq!(h.len(), 0);
    assert!(h.is_empty());
    for i in 0..10 {
        h.record(format!("line {}", i));
    }
    assert_eq!(h.len(), 10);
    assert!(!h.is_empty());
    for i in 0..10 {
        assert_eq!(h.line_at(i), &format!("line {}", i));
    }
}

#[test]
fn record_all_appends_in_order() {
    let mut h = history_of(&["first"]);
    h.record_all(vec!["second".to_string(), "third".to_string()]);
    assert_eq!(h.len(), 3);
    assert_eq!(h.line_at(0), "first");
    assert_eq!(h.line_at(1), "second");
    assert_eq!(h.line_at(2), "third");
}

#[test]
fn success_prints_nothing_and_exits_zero() {
    let out = history_of(&["noise", "more noise"]);
    let err = history_of(&[]);
    let report = wrap_up(true, true, Some(0), &out, &err);
    assert!(report.trailing_newline);
    assert!(report.error_lines.is_empty());
    assert_eq!(report.exit_code, 0);
}

#[test]
fn failure_replays_stderr_in_order_with_banner() {
    let out = history_of(&["stdout noise"]);
    let err = history_of(&["err one", "err two", "err three"]);
    let report = wrap_up(true, false, Some(3), &out, &err);
    assert_eq!(
        report.error_lines,
        vec![
            "Error: Command failed with exit code 3".to_string(),
            "Error output:".to_string(),
            "err one".to_string(),
            "err two".to_string(),
            "err three".to_string(),
        ]
    );
    assert_eq!(report.exit_code, 3);
}

#[test]
fn failure_with_empty_stderr_replays_stdout() {
    let out = history_of(&["out one", "out two"]);
    let err = history_of(&[]);
    let report = wrap_up(false, false, Some(2), &out, &err);
    assert_eq!(
        report.error_lines,
        vec![
            "Error: Command failed with exit code 2".to_string(),
            "Error output:".to_string(),
            "out one".to_string(),
            "out two".to_string(),
        ]
    );
    assert_eq!(report.exit_code, 2);
    assert!(!report.trailing_newline);
}

#[test]
fn signal_death_shows_minus_one_and_exits_one() {
    let out = history_of(&[]);
    let err = history_of(&["killed"]);
    let report = wrap_up(false, false, None, &out, &err);
    assert_eq!(
        report.error_lines[0],
        "Error: Command failed with exit code -1"
    );
    assert_eq!(report.exit_code, 1);
}

#[test]
fn banner_carries_the_code() {
    assert_eq!(failure_banner(Some(42)), "Error: Command failed with exit code 42");
    assert_eq!(failure_banner(None), "Error: Command failed with exit code -1");
}

#[test]
fn decimal_formatting_is_exact() {
    assert_eq!(format_i32(0), "0");
    assert_eq!(format_i32(7), "7");
    assert_eq!(format_i32(10), "10");
    assert_eq!(format_i32(40320), "40320");
    assert_eq!(format_i32(-7), "-7");
    assert_eq!(format_i32(i32::MAX), "2147483647");
    assert_eq!(format_i32(i32::MIN), "-2147483648");
}

#[test]
fn spawn_messages_distinguish_the_missing_command() {
    assert_eq!(
        spawn_failure_message(SpawnErrorKind::NotFound, "mkae", "ignored"),
        "Command not found: mkae"
    );
    assert_eq!(
        spawn_failure_message(SpawnErrorKind::Io, "make", "permission denied"),
        "Error: permission denied"
    );
    assert_eq!(
        spawn_failure_message(SpawnErrorKind::Other, "make", "odd failure"),
        "Error: Failed to start command: odd failure"
    );
}

#[test]
fn color_overrides_force_a_colorful_child() {
    let env = color_env_overrides();
    assert_eq!(env.len(), 3);
    assert_eq!(env[0], ("TERM".to_string(), "xterm-256color".to_string()));
    assert_eq!(env[1], ("FORCE_COLOR".to_string(), "1".to_string()));
    assert_eq!(env[2], ("CLICOLOR_FORCE".to_string(), "1".to_string()));
}
