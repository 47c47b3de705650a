use remote_prover::text::{
    chars_of, parse_u16_digits, parse_usize_digits, string_of, truncate_for_log, u64_to_string,
    usize_to_string, with_context,
};

#[test]
fn char_round_trip() {
    let cs = chars_of("héllo\nworld");
    assert_eq!(cs.len(), 11);
    assert_eq!(string_of(&cs), "héllo\nworld");
}

#[test]
fn decimal_rendering_is_exact() {
    assert_eq!(u64_to_string(0), "0");
    assert_eq!(u64_to_string(7), "7");
    assert_eq!(u64_to_string(12345), "12345");
    assert_eq!(u64_to_string(u64::MAX), "18446744073709551615");
    assert_eq!(usize_to_string(3030), "3030");
}

#[test]
fn u16_parsing_is_exact() {
    assert_eq!(parse_u16_digits("0"), Some(0));
    assert_eq!(parse_u16_digits("42"), Some(42));
    assert_eq!(parse_u16_digits("65535"), Some(65535));
    assert_eq!(parse_u16_digits("65536"), None);
    assert_eq!(parse_u16_digits(""), None);
    assert_eq!(parse_u16_digits("12a"), None);
    assert_eq!(parse_u16_digits("-1"), None);
    assert_eq!(parse_u16_digits("+1"), None);
}

#[test]
fn usize_parsing_is_exact() {
    assert_eq!(parse_usize_digits("4"), Some(4));
    assert_eq!(parse_usize_digits("0"), Some(0));
    assert_eq!(parse_usize_digits("184467440737095516150"), None);
    assert_eq!(parse_usize_digits("ten"), None);
}

#[test]
fn truncation_counts_characters() {
    assert_eq!(truncate_for_log("short", 256), "short");
    assert_eq!(truncate_for_log("abcdef", 6), "abcdef");
    assert_eq!(truncate_for_log("abcdefg", 6), "abcdef\u{2026}");
    let long: String = "é".repeat(300);
    let cut = truncate_for_log(&long, 256);
    assert_eq!(cut.chars().count(), 257);
    assert!(cut.ends_with('\u{2026}'));
}

#[test]
fn truncation_of_empty_and_exact_inputs() {
    assert_eq!(truncate_for_log("", 0), "");
    assert_eq!(truncate_for_log("", 256), "");
    assert_eq!(truncate_for_log("ab", 0), "\u{2026}");
}

#[test]
fn context_joins_message_and_cause() {
    assert_eq!(
        with_context("failed to fetch program 'a.aleo'", "connection refused"),
        "failed to fetch program 'a.aleo': connection refused"
    );
}
