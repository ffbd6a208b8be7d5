use sheepfinance::text::{
    blank, chars_of, decimal_string, ends_with_text, is_ascii_alphanumeric, is_ascii_digit, is_control, is_whitespace,
    record_id_ok, same_text, split_once_char, starts_with_text, string_from_chars, trim, trim_nonempty,
};

fn all_chars() -> impl Iterator<Item = char> {
    (0u32..=0x10FFFF).filter_map(char::from_u32)
}

#[test]
fn character_classes_agree_with_std() {
    for c in all_chars() {
        assert_eq!(is_whitespace(c), c.is_whitespace(), "whitespace {:?}", c);
        assert_eq!(is_control(c), c.is_control(), "control {:?}", c);
        assert_eq!(is_ascii_digit(c), c.is_ascii_digit(), "digit {:?}", c);
        assert_eq!(is_ascii_alphanumeric(c), c.is_ascii_alphanumeric(), "alphanumeric {:?}", c);
    }
}

#[test]
fn trimming_agrees_with_std() {
    for s in ["", "  ", " a ", "\u{3000}全角\u{3000}", "\t\nx y\r\n", "\u{a0}b", "c\u{85}", "无空白"] {
        assert_eq!(trim(s), s.trim());
        assert_eq!(blank(s), s.trim().is_empty());
        assert_eq!(trim_nonempty(s), if s.trim().is_empty() { None } else { Some(s.trim().to_string()) });
    }
}

#[test]
fn decimal_spelling_and_pieces() {
    assert_eq!(decimal_string(0), "0");
    assert_eq!(decimal_string(409), "409");
    assert_eq!(decimal_string(u64::MAX), u64::MAX.to_string());
    assert_eq!(chars_of("a字"), vec!['a', '字']);
    assert_eq!(string_from_chars(&['x', '元']), "x元");
    assert!(same_text("甲", "甲"));
    assert!(!same_text("甲", "乙"));
    assert!(starts_with_text("data:image/png", "data:image/"));
    assert!(!starts_with_text("da", "data"));
    assert!(ends_with_text("image/png;base64", ";base64"));
    assert!(!ends_with_text("base64", ";base64"));
    assert_eq!(split_once_char("a,b,c", ','), Some(("a", "b,c")));
    assert_eq!(split_once_char("abc", ','), None);
}

#[test]
fn record_numbers_hold_only_safe_characters() {
    assert!(record_id_ok("A-z_09"));
    assert!(!record_id_ok(""));
    assert!(!record_id_ok("a/b"));
    assert!(!record_id_ok("a\\b"));
    assert!(!record_id_ok("a.json"));
    assert!(!record_id_ok("c:x"));
    assert!(!record_id_ok(&"x".repeat(121)));
}
