use palabot::text::{
    is_whitespace, parse_i32, push_decimal, push_decimal_pad2, split_whitespace, strip_leading_char, trim,
};

#[test]
fn whitespace_is_unicode_white_space() {
    for c in [' ', '\t', '\n', '\r', '\u{0B}', '\u{0C}', '\u{85}', '\u{A0}', '\u{1680}', '\u{2000}', '\u{200A}', '\u{2028}', '\u{2029}', '\u{202F}', '\u{205F}', '\u{3000}'] {
        assert!(is_whitespace(c), "{:?}", c);
        assert_eq!(is_whitespace(c), c.is_whitespace());
    }
    for c in ['a', '@', '0', '\u{200B}', '\u{FEFF}', 'ñ', '🪏'] {
        assert!(!is_whitespace(c), "{:?}", c);
        assert_eq!(is_whitespace(c), c.is_whitespace());
    }
}

#[test]
fn trim_removes_outer_whitespace_only() {
    assert_eq!(trim("  hola mundo \n"), "hola mundo");
    assert_eq!(trim("\u{3000}año\u{A0}"), "año");
    assert_eq!(trim("   "), "");
    assert_eq!(trim(""), "");
    assert_eq!(trim("x"), "x");
}

#[test]
fn split_whitespace_matches_std() {
    for s in ["  @ana   15 extra ", "", "   ", "uno", "a\tb\nc", " \u{2003}dos\u{A0}tres "] {
        let ours = split_whitespace(s);
        let std_words: Vec<String> = s.split_whitespace().map(|w| w.to_string()).collect();
        assert_eq!(ours, std_words, "{:?}", s);
    }
}

#[test]
fn strip_leading_char_strips_only_the_start() {
    assert_eq!(strip_leading_char("@@ana@", '@'), "ana@");
    assert_eq!(strip_leading_char("ana", '@'), "ana");
    assert_eq!(strip_leading_char("@@@", '@'), "");
}

#[test]
fn parse_i32_agrees_with_std() {
    for s in ["42", "-7", "+5", "", "-", "+", "2147483647", "2147483648", "-2147483648", "-2147483649", " 1", "1 ", "1a", "99999999999", "007", "-0", "٣", "1_000"] {
        assert_eq!(parse_i32(s), s.parse::<i32>().ok(), "{:?}", s);
    }
    assert_eq!(parse_i32("15"), Some(15));
    assert_eq!(parse_i32("-2147483648"), Some(i32::MIN));
}

#[test]
fn decimal_numerals() {
    let mut s = String::from("n=");
    push_decimal(&mut s, 0);
    assert_eq!(s, "n=0");
    let mut s = String::new();
    push_decimal(&mut s, 1234567890);
    assert_eq!(s, "1234567890");
    let mut s = String::new();
    push_decimal(&mut s, u64::MAX);
    assert_eq!(s, u64::MAX.to_string());
    for n in [0u64, 3, 9, 10, 12, 31, 99, 100, 123] {
        let mut s = String::new();
        push_decimal_pad2(&mut s, n);
        assert_eq!(s, format!("{:02}", n));
    }
}
