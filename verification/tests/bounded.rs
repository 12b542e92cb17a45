use lifecycle_outbox::outbox::bounded::{
    bounded_text, collapse_white_space, strip_ansi, OUTBOX_DETAIL_MAX_CHARS,
    OUTBOX_HEADLINE_MAX_CHARS, OUTBOX_PATH_MAX_CHARS, OUTBOX_PREVIEW_MAX_CHARS,
    OUTBOX_TRUNCATION_MARKER,
};

#[test]
fn bounded_text_truncates_to_limit_with_marker() {
    assert_eq!(bounded_text("short", 80), "short");
    let long = "x".repeat(200);
    let bounded = bounded_text(&long, OUTBOX_DETAIL_MAX_CHARS);
    assert_eq!(bounded.chars().count(), OUTBOX_DETAIL_MAX_CHARS);
    assert!(bounded.ends_with(OUTBOX_TRUNCATION_MARKER));
    assert!(bounded.starts_with('x'));
}

#[test]
fn bounded_text_strips_controls_and_collapses_whitespace() {
    assert_eq!(
        bounded_text("line\x1b[31m one\n\n  two\t", 80),
        "line one two"
    );
    assert_eq!(bounded_text("", 80), "");
    assert_eq!(bounded_text("   \n\t  ", 80), "");
}

#[test]
fn bounded_text_strips_full_ansi_escape_sequences() {
    assert_eq!(bounded_text("\x1b[1;31mbold red\x1b[0m", 80), "bold red");
    assert_eq!(
        bounded_text("\x1b]8;;https://example.com\x1b\\link\x1b]8;;\x1b\\", 80),
        "link"
    );
    assert_eq!(bounded_text("\x1b]0;title\x07text", 80), "text");
    assert_eq!(bounded_text("a\x1bcb", 80), "ab");
    assert_eq!(bounded_text("x\x1b[31", 80), "x");
    assert_eq!(bounded_text("a\x1b", 80), "a");
    assert_eq!(bounded_text("a\x1bb", 80), "a");
}

#[test]
fn bounded_text_respects_utf8_boundaries() {
    let emoji = "🦈".repeat(30);
    let bounded = bounded_text(&emoji, OUTBOX_DETAIL_MAX_CHARS);
    assert!(bounded.chars().count() <= OUTBOX_DETAIL_MAX_CHARS);
    assert!(bounded.starts_with('🦈'));
}

#[test]
fn ceilings_have_their_documented_values() {
    assert_eq!(OUTBOX_HEADLINE_MAX_CHARS, 80);
    assert_eq!(OUTBOX_DETAIL_MAX_CHARS, 120);
    assert_eq!(OUTBOX_PREVIEW_MAX_CHARS, 200);
    assert_eq!(OUTBOX_PATH_MAX_CHARS, 512);
    assert_eq!(OUTBOX_TRUNCATION_MARKER, "…");
}

#[test]
fn control_strings_run_to_their_terminator() {
    assert_eq!(strip_ansi("a\x1bPq#0\x07still\x1b\\b"), "ab");
    assert_eq!(strip_ansi("a\x1bXsos\x1b\\b"), "ab");
    assert_eq!(strip_ansi("a\x1b^pm\x1b\\b"), "ab");
    assert_eq!(strip_ansi("a\x1b_apc\x1b\\b"), "ab");
    assert_eq!(strip_ansi("a\x1b]never closed"), "a");
    assert_eq!(strip_ansi("a\x1b]x\x1by\x1b\\b"), "ab");
    assert_eq!(strip_ansi("tab\there\u{85}"), "tabhere");
}

#[test]
fn white_space_is_collapsed_to_single_inner_spaces() {
    assert_eq!(collapse_white_space("  a\u{a0}\u{2003} b c \u{3000}"), "a b c");
    assert_eq!(collapse_white_space("\t\n"), "");
    let by_std: String = "x  y\u{2028}z ".split_whitespace().collect::<Vec<_>>().join(" ");
    assert_eq!(collapse_white_space("x  y\u{2028}z "), by_std);
}

#[test]
fn the_cut_is_exact() {
    assert_eq!(bounded_text("abcd", 4), "abcd");
    assert_eq!(bounded_text("abcde", 4), "abc…");
    assert_eq!(bounded_text("abcde", 1), "…");
    assert_eq!(bounded_text("", 0), "");
    assert_eq!(bounded_text("x", 0), "");
}

#[test]
fn bounding_twice_changes_nothing() {
    for text in ["a  b\x1b[1mc", "ab cd ef", "x\u{7f}y   z"] {
        for max in 0..8 {
            let once = bounded_text(text, max);
            assert_eq!(bounded_text(&once, max), once);
            assert!(once.chars().count() <= max);
        }
    }
}
