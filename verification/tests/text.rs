use joya::text::{
    contains, decimal_text, first_position, is_blank, last_position, parse_u64, same,
    strip_prefix, trim, trim_end_of,
};

#[test]
fn trimming_agrees_with_std() {
    for s in ["", " a ", "\u{a0}\u{2003}x y\n\t", "\u{200b}z", "\u{3000}", "ñ "] {
        assert_eq!(trim(s), s.trim());
        assert_eq!(is_blank(s), s.trim().is_empty());
    }
    assert_eq!(trim_end_of("http://x//", '/'), "http://x");
    assert_eq!(trim_end_of("//", '/'), "");
}

#[test]
fn searching_agrees_with_std() {
    assert_eq!(strip_prefix("https://x", "https://"), Some("x"));
    assert_eq!(strip_prefix("http", "https://"), None);
    assert!(contains("a \"error\" b", "\"error\""));
    assert!(contains("abc", ""));
    assert!(!contains("erro", "error"));
    let chars: Vec<char> = "a{b}{c}".chars().collect();
    assert_eq!(first_position(&chars, '{'), Some(1));
    assert_eq!(last_position(&chars, '}'), Some(6));
    assert_eq!(first_position(&chars, 'x'), None);
    assert_eq!(last_position(&chars, 'x'), None);
    assert!(same("é", "é"));
    assert!(!same("é", "e"));
}

#[test]
fn numbers_are_written_and_read_as_std_does() {
    for n in [0, 7, 10, 1234567890, u64::MAX] {
        assert_eq!(decimal_text(n), n.to_string());
        assert_eq!(parse_u64(&decimal_text(n)), Some(n));
    }
    for s in ["", "+", "+5", "-5", "007", "18446744073709551616", "1 ", "x", "٣", "99999999999999999999"] {
        assert_eq!(parse_u64(s), s.parse::<u64>().ok(), "{s}");
    }
}
