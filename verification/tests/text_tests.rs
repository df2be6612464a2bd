use rpgtool::text::{char_is_whitespace, parse_i32, push_decimal, push_decimal_i64, str_equal, text_is_visible, trim_str};

#[test]
fn parse_i32_accepts_signs_and_leading_zeros() {
    assert_eq!(parse_i32("001"), Some(1));
    assert_eq!(parse_i32("42"), Some(42));
    assert_eq!(parse_i32("+5"), Some(5));
    assert_eq!(parse_i32("-12"), Some(-12));
    assert_eq!(parse_i32("-0"), Some(0));
    assert_eq!(parse_i32("2147483647"), Some(i32::MAX));
    assert_eq!(parse_i32("-2147483648"), Some(i32::MIN));
}

#[test]
fn parse_i32_rejects_what_str_parse_rejects() {
    assert_eq!(parse_i32(""), None);
    assert_eq!(parse_i32("-"), None);
    assert_eq!(parse_i32("+"), None);
    assert_eq!(parse_i32("2147483648"), None);
    assert_eq!(parse_i32("-2147483649"), None);
    assert_eq!(parse_i32("99999999999999999999"), None);
    assert_eq!(parse_i32("12a"), None);
    assert_eq!(parse_i32(" 1"), None);
    assert_eq!(parse_i32("Infos"), None);
    assert_eq!(parse_i32("+-1"), None);
}

#[test]
fn parse_i32_agrees_with_std() {
    for s in ["0", "7", "-7", "+0", "0007", "-", "", "x", "1_000", "2147483647", "2147483648", "-2147483648", "-2147483649", "١٢"] {
        assert_eq!(parse_i32(s), s.parse::<i32>().ok(), "input {:?}", s);
    }
}

#[test]
fn decimal_formatting() {
    let mut s = String::from("x");
    push_decimal(&mut s, 0);
    push_decimal(&mut s, 1203);
    assert_eq!(s, "x01203");
    let mut t = String::new();
    push_decimal_i64(&mut t, -45);
    assert_eq!(t, "-45");
    let mut m = String::new();
    push_decimal_i64(&mut m, i64::MIN);
    assert_eq!(m, i64::MIN.to_string());
    let mut u = String::new();
    push_decimal(&mut u, u64::MAX);
    assert_eq!(u, u64::MAX.to_string());
}

#[test]
fn whitespace_is_unicode_white_space() {
    for c in [' ', '\t', '\n', '\r', '\u{b}', '\u{c}', '\u{85}', '\u{a0}', '\u{1680}', '\u{2000}', '\u{200a}', '\u{2028}', '\u{2029}', '\u{202f}', '\u{205f}', '\u{3000}'] {
        assert!(char_is_whitespace(c), "{:?}", c);
    }
    for c in ['a', '0', '\u{200b}', '\u{feff}', '#', '\u{0}'] {
        assert!(!char_is_whitespace(c), "{:?}", c);
    }
    for u in 0u32..0x3100 {
        if let Some(c) = char::from_u32(u) {
            assert_eq!(char_is_whitespace(c), c.is_whitespace(), "{:?}", c);
        }
    }
}

#[test]
fn visible_text() {
    assert!(!text_is_visible(""));
    assert!(!text_is_visible(" \t\n"));
    assert!(!text_is_visible("\u{3000}"));
    assert!(text_is_visible("  a "));
    assert!(text_is_visible("\u{3000}x"));
}

#[test]
fn trim_matches_std() {
    for s in ["", "   ", " a ", "\u{3000}名前\u{3000}", "a b", "\r\nx\r\n", "x"] {
        assert_eq!(trim_str(s), s.trim(), "{:?}", s);
    }
}

#[test]
fn string_equality() {
    assert!(str_equal("Map", "Map"));
    assert!(!str_equal("Map", "Maps"));
    assert!(!str_equal("Map", "map"));
    assert!(str_equal("", ""));
}
