use quietrun::sanitize::{strip_ansi, strip_line_controls};

#[test]
fn clear_sequence_removed_text_kept() {
    // a cursor-clear sequence followed by visible text: the render-safe pass
    // drops the sequence, the measurement pass yields exactly the text
    let safe = strip_line_controls("\u{1b}[2Kabc");
    assert_eq!(safe, "abc");
    let clean = strip_ansi(&safe);
    assert_eq!(clean, "abc");
    assert_eq!(clean.chars().count(), 3);
}

#[test]
fn carriage_returns_removed() {
    assert_eq!(strip_line_controls("a\rb\r"), "ab");
}

#[test]
fn line_clear_variants_removed() {
    assert_eq!(strip_line_controls("x\u{1b}[Ky"), "xy");
    assert_eq!(strip_line_controls("x\u{1b}[1Ky"), "xy");
    assert_eq!(strip_line_controls("x\u{1b}[2Ky"), "xy");
}

#[test]
fn cursor_moves_removed() {
    assert_eq!(strip_line_controls("a\u{1b}[10Gb"), "ab");
    assert_eq!(strip_line_controls("a\u{1b}[3Cb"), "ab");
    assert_eq!(strip_line_controls("a\u{1b}[Db"), "ab");
    assert_eq!(strip_line_controls("a\u{1b}[sb\u{1b}[uc"), "abc");
}

#[test]
fn color_sequences_survive_render_safe_pass() {
    let line = "\u{1b}[31mred\u{1b}[0m";
    assert_eq!(strip_line_controls(line), line);
}

#[test]
fn unrecognized_control_kept_verbatim() {
    // two digits before K is not a recognized line-clear variant
    let line = "a\u{1b}[22Kb";
    assert_eq!(strip_line_controls(line), line);
}

#[test]
fn measurement_strips_colors() {
    assert_eq!(strip_ansi("\u{1b}[31mred\u{1b}[0m"), "red");
}

#[test]
fn measurement_strips_bell_and_ellipsis() {
    assert_eq!(strip_ansi("a\u{7}b\u{2026}c"), "abc");
}

#[test]
fn measurement_of_plain_text_is_identity() {
    assert_eq!(strip_ansi("plain text 123"), "plain text 123");
}

#[test]
fn empty_line_stays_empty() {
    assert_eq!(strip_line_controls(""), "");
    assert_eq!(strip_ansi(""), "");
}
