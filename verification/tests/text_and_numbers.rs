use kitkat::numbers::{i64_to_chars, parse_i32, parse_i64, parse_u64, parse_usize, u64_to_chars, IntErrorKind};
use kitkat::text::{
    chars_of, lex_less, sort_strings, split_lines, split_once_chars, strip_comment_chars,
    string_of, to_lowercase, trim_chars, trim_quotes_chars,
};

fn s(v: &[char]) -> String {
    v.iter().collect()
}

#[test]
fn parses_integers_like_str_parse() {
    assert_eq!(parse_u64(&chars_of("42")), Ok(42));
    assert_eq!(parse_u64(&chars_of("+7")), Ok(7));
    assert_eq!(parse_u64(&chars_of("")), Err(IntErrorKind::Empty));
    assert_eq!(parse_u64(&chars_of("+")), Err(IntErrorKind::InvalidDigit));
    assert_eq!(parse_u64(&chars_of("-1")), Err(IntErrorKind::InvalidDigit));
    assert_eq!(parse_u64(&chars_of("18446744073709551615")), Ok(u64::MAX));
    assert_eq!(parse_u64(&chars_of("18446744073709551616")), Err(IntErrorKind::PosOverflow));
    assert_eq!(parse_u64(&chars_of("12a")), Err(IntErrorKind::InvalidDigit));
    assert_eq!(parse_i64(&chars_of("-9223372036854775808")), Ok(i64::MIN));
    assert_eq!(parse_i64(&chars_of("-9223372036854775809")), Err(IntErrorKind::NegOverflow));
    assert_eq!(parse_i64(&chars_of("-")), Err(IntErrorKind::InvalidDigit));
    assert_eq!(parse_i32(&chars_of("2147483648")), Err(IntErrorKind::PosOverflow));
    assert_eq!(parse_usize(&chars_of("3")), Ok(3));
    for text in ["0", "15", "+3", "-3", "", "x", "99999999999999999999"] {
        let expected = text.parse::<u64>().map_err(|e| e.kind().clone());
        let ours = parse_u64(&chars_of(text));
        assert_eq!(ours.is_ok(), expected.is_ok(), "{text}");
    }
}

#[test]
fn writes_integers_like_display() {
    assert_eq!(s(&u64_to_chars(0)), "0");
    assert_eq!(s(&u64_to_chars(1234567890123)), "1234567890123");
    assert_eq!(s(&u64_to_chars(u64::MAX)), u64::MAX.to_string());
    assert_eq!(s(&i64_to_chars(-45)), "-45");
    assert_eq!(s(&i64_to_chars(i64::MIN)), i64::MIN.to_string());
}

#[test]
fn written_ids_read_back() {
    for n in [0u64, 7, 10, 999, 1_234_567_890_123_456_789, u64::MAX] {
        assert_eq!(parse_u64(&u64_to_chars(n)), Ok(n));
    }
}

#[test]
fn trims_unicode_whitespace() {
    assert_eq!(s(&trim_chars(&chars_of(" \t hola \u{3000}\n"))), "hola");
    assert_eq!(s(&trim_chars(&chars_of("   "))), "");
    assert_eq!(s(&trim_quotes_chars(&chars_of("\" 12 \""))), "12");
    assert_eq!(s(&trim_quotes_chars(&chars_of("\""))), "\"");
    assert_eq!(s(&strip_comment_chars(&chars_of("key = 1  # note"))), "key = 1");
}

#[test]
fn splits_lines_like_str_lines() {
    for text in ["a\r\nb\n", "", "\n", "one", "x\n\ny", "a\r", "a\r\r\n"] {
        let ours: Vec<String> = split_lines(&chars_of(text)).iter().map(|l| s(l)).collect();
        let std_lines: Vec<String> = text.lines().map(|l| l.to_string()).collect();
        assert_eq!(ours, std_lines, "{text:?}");
    }
    let (k, v) = split_once_chars(&chars_of("a=b=c"), '=').unwrap();
    assert_eq!((s(&k), s(&v)), ("a".to_string(), "b=c".to_string()));
    assert!(split_once_chars(&chars_of("abc"), '=').is_none());
}

#[test]
fn sorts_strings_in_string_order() {
    let v = vec!["b.png".to_string(), "a.png".to_string(), "ä".to_string(), "a".to_string()];
    let mut expected = v.clone();
    expected.sort_unstable();
    assert_eq!(sort_strings(v), expected);
    assert!(lex_less("a", "ab"));
    assert!(!lex_less("b", "ab"));
    assert!(!lex_less("x", "x"));
    assert_eq!(string_of(&chars_of("día")), "día");
    assert_eq!(to_lowercase("ÁRBOL"), "árbol");
}
