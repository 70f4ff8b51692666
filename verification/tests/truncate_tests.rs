use quietrun::sanitize::strip_ansi;
use quietrun::truncate::truncate_with_ansi;

#[test]
fn short_line_unchanged() {
    assert_eq!(truncate_with_ansi("hi", 5), "hi");
}

#[test]
fn line_exactly_at_budget_unchanged() {
    assert_eq!(truncate_with_ansi("hello", 5), "hello");
}

#[test]
fn long_line_cut_with_marker() {
    // budget 5: four visible characters survive, the fifth is the marker
    assert_eq!(truncate_with_ansi("hello world", 5), "hell\u{2026}");
}

#[test]
fn zero_budget_yields_marker_alone() {
    assert_eq!(truncate_with_ansi("abc", 0), "\u{2026}");
}

#[test]
fn budget_one_yields_marker_alone() {
    assert_eq!(truncate_with_ansi("abc", 1), "\u{2026}");
}

#[test]
fn escape_sequence_before_cut_is_kept_whole() {
    assert_eq!(truncate_with_ansi("\u{1b}[31mabcdef", 3), "\u{1b}[31mab\u{2026}");
}

#[test]
fn escape_sequence_after_cut_is_discarded() {
    // visible characters are a, b, c, d; the cut lands on b, and the color
    // sequence standing after it goes with the discarded tail
    assert_eq!(truncate_with_ansi("ab\u{1b}[31mcd", 2), "a\u{2026}");
}

#[test]
fn escape_sequences_do_not_count_against_budget() {
    let line = "\u{1b}[31mab\u{1b}[0m";
    assert_eq!(truncate_with_ansi(line, 2), line);
}

#[test]
fn truncated_result_measures_within_budget() {
    // the measurement transform of a truncated line stays within the budget,
    // and its characters are the first budget-minus-one visible ones (the
    // marker itself is zero-width for measurement)
    let line = "\u{1b}[32mabcdefghij\u{1b}[0m";
    let w = 6;
    let cut = truncate_with_ansi(line, w);
    let measured = strip_ansi(&cut);
    assert!(measured.chars().count() <= w);
    assert_eq!(measured, "abcde");
    assert_eq!(cut.chars().rev().next(), Some('\u{2026}'));
}
