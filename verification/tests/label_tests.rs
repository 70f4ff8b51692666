use quietrun::label::{derive_label, make_prefix};

fn tokens(parts: &[&str]) -> Vec<String> {
    parts.iter().map(|s| s.to_string()).collect()
}

#[test]
fn label_stops_at_first_flag() {
    // only the leading contiguous non-flag tokens enter the label
    let t = tokens(&["build", "--verbose", "module-x"]);
    assert_eq!(derive_label(&t), "build");
}

#[test]
fn label_joins_leading_tokens_with_spaces() {
    let t = tokens(&["cargo", "build", "module-x"]);
    assert_eq!(derive_label(&t), "cargo build module-x");
}

#[test]
fn label_empty_when_command_line_starts_with_flag() {
    let t = tokens(&["--help"]);
    assert_eq!(derive_label(&t), "");
}

#[test]
fn long_label_cut_to_32_plus_marker() {
    // a 40-character token: 32 visible characters survive, the marker makes 33
    let long = "a".repeat(40);
    let t = tokens(&[&long]);
    let label = derive_label(&t);
    assert_eq!(label.chars().count(), 33);
    let expected = format!("{}\u{2026}", "a".repeat(32));
    assert_eq!(label, expected);
}

#[test]
fn label_of_exactly_32_kept_whole() {
    let exact = "b".repeat(32);
    let t = tokens(&[&exact]);
    assert_eq!(derive_label(&t), exact);
}

#[test]
fn cap_applies_to_the_joined_run() {
    let t = tokens(&["0123456789", "0123456789", "0123456789"]);
    // joined: 32 characters of text and spaces... 10+1+10+1+10 = 32, kept whole
    assert_eq!(derive_label(&t), "0123456789 0123456789 0123456789");
    let t2 = tokens(&["0123456789", "0123456789", "0123456789x"]);
    let label = derive_label(&t2);
    assert_eq!(label.chars().count(), 33);
    assert_eq!(label, "0123456789 0123456789 0123456789\u{2026}");
}

#[test]
fn prefix_wraps_label_in_brackets() {
    assert_eq!(make_prefix("build"), "[build] ");
    assert_eq!(make_prefix(""), "[] ");
}
