use aspen::format::{push_bool, push_decimal, push_digits};
use aspen::integer::{parse_signed, parse_unsigned, IntErrorKind};
use aspen::text::{
    char_is_whitespace, chars_of, find_token, join_range, join_rest, push_token, split_words,
};

fn strings(words: &[&str]) -> Vec<String> {
    words.iter().map(|w| w.to_string()).collect()
}

#[test]
fn splits_on_any_white_space() {
    assert_eq!(split_words("  go\tdepth \u{3000}7 \n"), strings(&["go", "depth", "7"]));
    assert!(split_words("").is_empty());
    assert!(split_words(" \t\r\n").is_empty());
    assert_eq!(split_words("x"), strings(&["x"]));
    assert!(char_is_whitespace('\u{a0}'));
    assert!(!char_is_whitespace('_'));
}

#[test]
fn joins_words_with_single_spaces() {
    let mut target = String::new();
    push_token(&mut target, "Clear");
    assert_eq!(target, "Clear");
    push_token(&mut target, "Hash");
    assert_eq!(target, "Clear Hash");
    let words = strings(&["name", "Clear", "Hash", "value", "on"]);
    assert_eq!(join_range(&words, 1, 3), "Clear Hash");
    assert_eq!(join_rest(&words, 4), "on");
    assert_eq!(join_rest(&words, 5), "");
    assert_eq!(find_token(&words, 1, "value"), 3);
    assert_eq!(find_token(&words, 4, "value"), 5);
    assert_eq!(split_words(&join_range(&words, 0, 5)), words);
}

#[test]
fn characters_in_order() {
    assert_eq!(chars_of("aé1"), vec!['a', 'é', '1']);
}

#[test]
fn reads_unsigned_integers_as_std_does() {
    assert_eq!(parse_unsigned("1000", u64::MAX), Ok(1000));
    assert_eq!(parse_unsigned("+7", u64::MAX), Ok(7));
    assert_eq!(parse_unsigned("007", u64::MAX), Ok(7));
    assert_eq!(parse_unsigned("", u64::MAX), Err(IntErrorKind::Empty));
    assert_eq!(parse_unsigned("+", u64::MAX), Err(IntErrorKind::InvalidDigit));
    assert_eq!(parse_unsigned("-", u64::MAX), Err(IntErrorKind::InvalidDigit));
    assert_eq!(parse_unsigned("-1", u64::MAX), Err(IntErrorKind::InvalidDigit));
    assert_eq!(parse_unsigned("12a", u64::MAX), Err(IntErrorKind::InvalidDigit));
    assert_eq!(parse_unsigned("18446744073709551615", u64::MAX), Ok(u64::MAX));
    assert_eq!(parse_unsigned("18446744073709551616", u64::MAX), Err(IntErrorKind::PosOverflow));
    assert_eq!(parse_unsigned("4294967296", u32::MAX as u64), Err(IntErrorKind::PosOverflow));
    assert_eq!(parse_unsigned("99999999999999999999x", u64::MAX), Err(IntErrorKind::PosOverflow));
    for text in ["0", "+0", "42", "4294967295", "x", "1 2", "-0"] {
        let expected = text.parse::<u32>().map(u64::from).map_err(|e| e.kind().clone());
        let got = parse_unsigned(text, u32::MAX as u64).map_err(|k| match k {
            IntErrorKind::Empty => std::num::IntErrorKind::Empty,
            IntErrorKind::InvalidDigit => std::num::IntErrorKind::InvalidDigit,
            IntErrorKind::PosOverflow => std::num::IntErrorKind::PosOverflow,
            IntErrorKind::NegOverflow => std::num::IntErrorKind::NegOverflow,
        });
        assert_eq!(got, expected, "{text}");
    }
}

#[test]
fn reads_signed_integers_as_std_does() {
    assert_eq!(parse_signed("-42"), Ok(-42));
    assert_eq!(parse_signed("+42"), Ok(42));
    assert_eq!(parse_signed("-9223372036854775808"), Ok(i64::MIN));
    assert_eq!(parse_signed("-9223372036854775809"), Err(IntErrorKind::NegOverflow));
    assert_eq!(parse_signed("9223372036854775807"), Ok(i64::MAX));
    assert_eq!(parse_signed("9223372036854775808"), Err(IntErrorKind::PosOverflow));
    assert_eq!(parse_signed("--1"), Err(IntErrorKind::InvalidDigit));
    assert_eq!(parse_signed(""), Err(IntErrorKind::Empty));
}

#[test]
fn writes_decimals_as_display_does() {
    for v in [0i64, 7, -7, 10, 1024, i64::MIN, i64::MAX] {
        let mut out = String::from("x");
        push_decimal(&mut out, v);
        assert_eq!(out, format!("x{v}"));
        assert_eq!(parse_signed(&out[1..]), Ok(v));
    }
    let mut out = String::new();
    push_digits(&mut out, 100);
    push_bool(&mut out, false);
    assert_eq!(out, "100false");
}
