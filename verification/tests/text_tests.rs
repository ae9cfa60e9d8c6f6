use monkey::decimal::{i64_to_string, parse_i64};
use monkey::text::{
    chars_of, check_digit, check_whitespace, check_word_part, check_word_start,
    string_from_chars,
};

#[test]
fn integers_in_decimal_notation() {
    assert_eq!(i64_to_string(0), "0");
    assert_eq!(i64_to_string(7), "7");
    assert_eq!(i64_to_string(10), "10");
    assert_eq!(i64_to_string(-1), "-1");
    assert_eq!(i64_to_string(1234567890), "1234567890");
    assert_eq!(i64_to_string(i64::MAX), "9223372036854775807");
    assert_eq!(i64_to_string(i64::MIN), "-9223372036854775808");
}

#[test]
fn digit_strings_as_integers() {
    assert_eq!(parse_i64("0"), Some(0));
    assert_eq!(parse_i64("5"), Some(5));
    assert_eq!(parse_i64("0042"), Some(42));
    assert_eq!(parse_i64("9223372036854775807"), Some(i64::MAX));
    assert_eq!(parse_i64("9223372036854775808"), None);
    assert_eq!(parse_i64("18446744073709551616"), None);
    assert_eq!(parse_i64("000000000000000000000000000001"), Some(1));
    assert_eq!(parse_i64(""), None);
    assert_eq!(parse_i64("-5"), None);
    assert_eq!(parse_i64("+5"), None);
    assert_eq!(parse_i64("12a"), None);
    assert_eq!(parse_i64("١٢"), None);
}

#[test]
fn decimal_notation_round_trip() {
    for value in [0, 1, 9, 10, 99, 100, 4096, i64::MAX] {
        assert_eq!(parse_i64(&i64_to_string(value)), Some(value));
    }
}

#[test]
fn character_classes() {
    for c in [' ', '\t', '\n', '\r'] {
        assert!(check_whitespace(c));
    }
    for c in ['a', '\0', '\u{a0}', '\u{b}', '\u{c}'] {
        assert!(!check_whitespace(c));
    }
    for c in ['0', '5', '9'] {
        assert!(check_digit(c));
        assert!(check_word_part(c));
        assert!(!check_word_start(c));
    }
    for c in ['a', 'z', 'A', 'Z', '_', 'é', '京'] {
        assert!(check_word_start(c));
        assert!(check_word_part(c));
        assert!(!check_digit(c));
    }
    for c in ['\0', ' ', '(', ')', '+', ';', '=', '@', '[', '`', '{', '\u{7f}', '💝'] {
        assert!(!check_word_start(c));
        assert!(!check_word_part(c));
    }
    assert!(check_word_part('²'));
    assert!(!check_word_start('²'));
    assert!(!check_digit('²'));
    assert!(!check_digit('١'));
}

#[test]
fn strings_and_characters() {
    assert_eq!(chars_of("a京b"), vec!['a', '京', 'b']);
    assert_eq!(chars_of(""), Vec::<char>::new());
    let chars = vec!['h', 'e', 'l', 'l', 'o'];
    assert_eq!(string_from_chars(&chars, 1, 4), "ell");
    assert_eq!(string_from_chars(&chars, 0, 5), "hello");
    assert_eq!(string_from_chars(&chars, 2, 2), "");
}
