use lifecycle_outbox::text;

#[test]
fn character_classes_agree_with_the_standard_library() {
    for code in 0..=0x10ffffu32 {
        if let Some(c) = char::from_u32(code) {
            assert_eq!(text::is_white_space(c), c.is_whitespace(), "{code:#x}");
            assert_eq!(text::is_control_char(c), c.is_control(), "{code:#x}");
            assert_eq!(text::ascii_lower_char(c), c.to_ascii_lowercase(), "{code:#x}");
        }
    }
}

#[test]
fn trimming_agrees_with_the_standard_library() {
    for s in ["", " ", "a", " a", "a ", "\u{3000} a b\t\n", "\u{85}", "  x  y  "] {
        assert_eq!(text::trim(s), s.trim());
    }
}

#[test]
fn lower_case_is_ascii_only() {
    assert_eq!(text::to_ascii_lowercase("AbZÄ9"), "abzÄ9");
    assert!(text::eq_ignore_ascii_case("Full", "fULL"));
    assert!(!text::eq_ignore_ascii_case("Ä", "ä"));
    assert!(text::same("a", "a"));
    assert!(!text::same("a", "b"));
}

#[test]
fn joining_puts_separators_between() {
    let parts: Vec<String> = ["a", "b", "c"].iter().map(|s| s.to_string()).collect();
    assert_eq!(text::join(&parts, ", "), "a, b, c");
    assert_eq!(text::join(&parts[..1], ", "), "a");
    assert_eq!(text::join(&[], ", "), "");
}

#[test]
fn numbers_are_written_in_decimal() {
    for n in [0u64, 7, 10, 99, 100, 1234567890, u64::MAX] {
        assert_eq!(text::decimal_text(n), n.to_string());
    }
}
