use signit::json::{is_space, scan_nested, scan_scalar, scan_string, scan_value, skip_spaces};
use signit::text::{starts_at, to_chars};

#[test]
fn json_spaces_are_four() {
    for c in [' ', '\n', '\t', '\r'] {
        assert!(is_space(c));
    }
    for c in ['\u{b}', '\u{c}', '\u{a0}', '\u{2028}', 'a', '"', '\u{0}'] {
        assert!(!is_space(c));
    }
}

#[test]
fn skip_spaces_stops_at_the_first_other_character() {
    let chars = to_chars(" \t\r\n x  ");
    assert_eq!(skip_spaces(&chars, 0), 5);
    assert_eq!(skip_spaces(&chars, 3), 5);
    assert_eq!(skip_spaces(&chars, 5), 5);
    assert_eq!(skip_spaces(&chars, 6), 8);
    assert_eq!(skip_spaces(&chars, 8), 8);
    assert_eq!(skip_spaces(&to_chars(""), 0), 0);
    assert_eq!(skip_spaces(&to_chars("\u{a0}x"), 0), 0);
}

#[test]
fn scan_string_finds_the_closing_quote() {
    assert_eq!(scan_string(&to_chars("\"abc\" rest"), 1), Some(5));
    assert_eq!(scan_string(&to_chars("\"\""), 1), Some(2));
    assert_eq!(scan_string(&to_chars("\"é😀\"x"), 1), Some(4));
}

#[test]
fn scan_string_takes_escaped_quotes_along() {
    assert_eq!(scan_string(&to_chars("\"a\\\"b\"c"), 1), Some(6));
    assert_eq!(scan_string(&to_chars("\"a\\\\\"c"), 1), Some(5));
    assert_eq!(scan_string(&to_chars("\"\\\\\\\"\"x"), 1), Some(6));
}

#[test]
fn scan_string_without_closing_quote_finds_none() {
    assert_eq!(scan_string(&to_chars("\"abc"), 1), None);
    assert_eq!(scan_string(&to_chars("\"abc\\\""), 1), None);
    assert_eq!(scan_string(&to_chars("\"abc\\"), 1), None);
    assert_eq!(scan_string(&to_chars("\""), 1), None);
}

#[test]
fn scan_nested_finds_the_matching_bracket() {
    assert_eq!(scan_nested(&to_chars("[]x"), 1), Some(2));
    assert_eq!(scan_nested(&to_chars("{}"), 1), Some(2));
    assert_eq!(scan_nested(&to_chars("[1,[2,{\"a\":[]}],3] tail"), 1), Some(18));
    assert_eq!(scan_nested(&to_chars("{\"a\":{\"b\":{}}},"), 1), Some(14));
}

#[test]
fn scan_nested_passes_over_brackets_in_strings() {
    assert_eq!(scan_nested(&to_chars("[\"]\"]x"), 1), Some(5));
    assert_eq!(scan_nested(&to_chars("{\"}\\\"]\":\"[{\"}x"), 1), Some(13));
}

#[test]
fn scan_nested_without_matching_bracket_finds_none() {
    assert_eq!(scan_nested(&to_chars("["), 1), None);
    assert_eq!(scan_nested(&to_chars("[[]"), 1), None);
    assert_eq!(scan_nested(&to_chars("[\"]"), 1), None);
    assert_eq!(scan_nested(&to_chars("{\"a\":[1,2}"), 1), None);
    assert_eq!(scan_nested(&to_chars("[\"a\\"), 1), None);
}

#[test]
fn scan_scalar_stops_at_space_comma_or_closing_bracket() {
    assert_eq!(scan_scalar(&to_chars("123,"), 0), 3);
    assert_eq!(scan_scalar(&to_chars("true}"), 0), 4);
    assert_eq!(scan_scalar(&to_chars("null]"), 0), 4);
    assert_eq!(scan_scalar(&to_chars("-1.5e+3 "), 0), 7);
    assert_eq!(scan_scalar(&to_chars("12\n"), 0), 2);
    assert_eq!(scan_scalar(&to_chars("abc"), 0), 3);
    assert_eq!(scan_scalar(&to_chars(",x"), 0), 0);
    assert_eq!(scan_scalar(&to_chars(""), 0), 0);
}

#[test]
fn scan_value_finds_the_end_of_each_kind() {
    assert_eq!(scan_value(&to_chars("\"s\","), 0), Some(3));
    assert_eq!(scan_value(&to_chars("[1,2],"), 0), Some(5));
    assert_eq!(scan_value(&to_chars("{\"a\":1}}"), 0), Some(7));
    assert_eq!(scan_value(&to_chars("false}"), 0), Some(5));
    assert_eq!(scan_value(&to_chars("x:1,"), 2), Some(3));
}

#[test]
fn scan_value_where_no_value_starts() {
    assert_eq!(scan_value(&to_chars(""), 0), None);
    assert_eq!(scan_value(&to_chars("x"), 1), None);
    assert_eq!(scan_value(&to_chars(",1"), 0), None);
    assert_eq!(scan_value(&to_chars("}"), 0), None);
    assert_eq!(scan_value(&to_chars(" 1"), 0), None);
    assert_eq!(scan_value(&to_chars("\"open"), 0), None);
    assert_eq!(scan_value(&to_chars("[open"), 0), None);
}

#[test]
fn starts_at_compares_at_the_index() {
    let chars = to_chars("ssh-ed25519 key");
    let marker = to_chars("ssh-ed25519");
    assert!(starts_at(&chars, 0, &marker));
    assert!(!starts_at(&chars, 1, &marker));
    assert!(starts_at(&chars, 12, &to_chars("key")));
    assert!(!starts_at(&chars, 12, &to_chars("keys")));
    assert!(!starts_at(&chars, 13, &to_chars("key")));
    assert!(starts_at(&chars, 15, &to_chars("")));
    assert!(starts_at(&chars, 3, &to_chars("")));
    assert!(!starts_at(&to_chars("ssh-ed2551"), 0, &marker));
}
