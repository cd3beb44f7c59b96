use docker_intrude::text::{chars_of, format_i64, format_u64, parse_u16, same_text, white_space};

fn parse(s: &str) -> Option<u16> {
    let v: Vec<char> = s.chars().collect();
    parse_u16(&v, 0, v.len())
}

#[test]
fn decimal_formatting() {
    assert_eq!(format_u64(0), "0");
    assert_eq!(format_u64(7), "7");
    assert_eq!(format_u64(1234567890), "1234567890");
    assert_eq!(format_u64(u64::MAX), u64::MAX.to_string());
    assert_eq!(format_i64(-42), "-42");
    assert_eq!(format_i64(i64::MIN), i64::MIN.to_string());
    assert_eq!(format_i64(5), "5");
}

#[test]
fn u16_parsing_matches_std() {
    for s in ["200", "+200", "0", "0200", "65535", "65536", "", "+", "-1", "2x", "99999999999", " 1", "+-1"] {
        assert_eq!(parse(s), s.parse::<u16>().ok(), "{s}");
    }
}

#[test]
fn u16_parsing_of_a_range() {
    let v: Vec<char> = "HTTP/1.1 404 Not".chars().collect();
    assert_eq!(parse_u16(&v, 9, 12), Some(404));
}

#[test]
fn decimal_round_trip_examples() {
    for n in [0u16, 1, 200, 204, 65535] {
        assert_eq!(parse(&format_u64(n as u64)), Some(n));
    }
}

#[test]
fn text_helpers() {
    assert!(same_text("abc", "abc"));
    assert!(!same_text("abc", "abd"));
    assert!(!same_text("ab", "abc"));
    assert_eq!(chars_of("héllo"), vec!['h', 'é', 'l', 'l', 'o']);
    for c in [' ', '\t', '\n', '\r', '\u{a0}', '\u{3000}', '\u{2009}', 'a', '0', '\u{200b}'] {
        assert_eq!(white_space(c), c.is_whitespace(), "{c:?}");
    }
}
