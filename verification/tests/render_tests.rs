use quietrun::render::Renderer;

#[test]
fn empty_line_writes_nothing_and_counts_for_nothing() {
    let mut r = Renderer::new("build", 80);
    assert_eq!(r.process_output_line(""), None);
    assert!(!r.printed_any());
}

#[test]
fn run_of_only_empty_lines_never_counts_as_printed() {
    let mut r = Renderer::new("build", 80);
    for _ in 0..5 {
        assert_eq!(r.process_output_line(""), None);
    }
    assert!(!r.printed_any());
}

#[test]
fn non_empty_line_is_rendered_with_clear_and_prefix() {
    let mut r = Renderer::new("build", 80);
    let w = r.process_output_line("hello").expect("a write");
    assert_eq!(w, "\r\u{1b}[2K[build] hello");
    assert!(r.printed_any());
}

#[test]
fn printed_flag_sticks_once_set() {
    let mut r = Renderer::new("build", 80);
    assert!(r.process_output_line("x").is_some());
    assert_eq!(r.process_output_line(""), None);
    assert!(r.printed_any());
}

#[test]
fn wide_line_truncated_to_available_width() {
    // prefix "[build] " takes 8 columns of 20, leaving 12
    let mut r = Renderer::new("build", 20);
    let w = r.process_output_line("abcdefghijklmnopqrst").expect("a write");
    assert_eq!(w, "\r\u{1b}[2K[build] abcdefghijk\u{2026}");
}

#[test]
fn line_modifying_sequences_are_stripped_before_rendering() {
    let mut r = Renderer::new("build", 80);
    let w = r.process_output_line("\u{1b}[2K\rdone").expect("a write");
    assert_eq!(w, "\r\u{1b}[2K[build] done");
}

#[test]
fn color_is_preserved_on_screen_but_not_measured() {
    // 12 columns available; the color sequences are free of charge
    let mut r = Renderer::new("build", 20);
    let w = r.process_output_line("\u{1b}[31mhello\u{1b}[0m").expect("a write");
    assert_eq!(w, "\r\u{1b}[2K[build] \u{1b}[31mhello\u{1b}[0m");
}

#[test]
fn prefix_wider_than_terminal_means_zero_width() {
    let mut r = Renderer::new("build", 4);
    let w = r.process_output_line("abc").expect("a write");
    assert_eq!(w, "\r\u{1b}[2K[build] \u{2026}");
}
