use minic::text::{
    char_in_class, chars_contain, chars_eq, chars_occur_at, chars_of, decimal_text, parse_decimal,
    scan_run, str_contains, str_eq, text_of, CharClass,
};

#[test]
fn text_helpers() {
    assert_eq!(chars_of("héllo"), vec!['h', 'é', 'l', 'l', 'o']);
    assert!(str_eq("abc", "abc"));
    assert!(!str_eq("abc", "abd"));
    assert!(!str_eq("abc", "ab"));
    assert!(str_eq("", ""));
    assert!(chars_eq(&vec!['a'], &vec!['a']));
    assert!(!chars_eq(&vec!['a'], &vec!['b']));
    assert!(str_contains("stdio.h", "stdio.h"));
    assert!(str_contains("<stdio.h>", "stdio.h"));
    assert!(str_contains("abc", ""));
    assert!(str_contains("", ""));
    assert!(!str_contains("", "a"));
    assert!(!str_contains("stdio", "stdio.h"));
    assert!(chars_contain(&chars_of("xxabxx"), &chars_of("ab")));
    assert!(!chars_contain(&chars_of("xxabxx"), &chars_of("ba")));
    assert!(chars_occur_at(&chars_of("ab"), &chars_of("xxab"), 2));
    assert!(!chars_occur_at(&chars_of("ab"), &chars_of("xxab"), 1));
    assert_eq!(text_of("héllo", 1, 3), "él");
    assert_eq!(text_of("abc", 3, 3), "");
}

#[test]
fn character_classes_and_numbers() {
    assert!(char_in_class(CharClass::Digit, '7'));
    assert!(!char_in_class(CharClass::Digit, 'a'));
    assert!(char_in_class(CharClass::WordStart, '_'));
    assert!(!char_in_class(CharClass::WordStart, '1'));
    assert!(char_in_class(CharClass::Word, '1'));
    assert!(!char_in_class(CharClass::Word, '-'));
    assert!(char_in_class(CharClass::InLine, ' '));
    assert!(!char_in_class(CharClass::InLine, '\n'));
    for c in ['\t', '\n', '\u{b}', '\u{c}', '\r', ' ', '\u{85}', '\u{a0}', '\u{1680}', '\u{2000}',
        '\u{200a}', '\u{2028}', '\u{2029}', '\u{202f}', '\u{205f}', '\u{3000}'] {
        assert!(char_in_class(CharClass::Space, c));
        assert!(c.is_whitespace());
    }
    for c in ['a', '0', '\u{200b}', '\u{feff}', '\u{1c}', '\u{180e}'] {
        assert_eq!(char_in_class(CharClass::Space, c), c.is_whitespace());
    }
    assert_eq!(scan_run(&chars_of("123abc"), 0, CharClass::Digit), 3);
    assert_eq!(scan_run(&chars_of("123abc"), 3, CharClass::Digit), 3);
    assert_eq!(scan_run(&chars_of("abc"), 1, CharClass::Word), 3);
    assert_eq!(parse_decimal(&chars_of("x0042"), 1, 5), Some(42));
    assert_eq!(parse_decimal(&chars_of(""), 0, 0), Some(0));
    assert_eq!(parse_decimal(&chars_of("9223372036854775807"), 0, 19), Some(i64::MAX));
    assert_eq!(parse_decimal(&chars_of("9223372036854775808"), 0, 19), None);
    assert_eq!(decimal_text(0), "0");
    assert_eq!(decimal_text(7), "7");
    assert_eq!(decimal_text(1203), "1203");
}

#[test]
fn numbers_and_truth_values_as_text() {
    assert_eq!(minic::text::signed_decimal_text(0), "0");
    assert_eq!(minic::text::signed_decimal_text(-1), "-1");
    assert_eq!(minic::text::signed_decimal_text(120), "120");
    assert_eq!(minic::text::signed_decimal_text(i64::MIN), i64::MIN.to_string());
    assert_eq!(minic::text::decimal_text_of(u64::MAX), u64::MAX.to_string());
    assert_eq!(minic::text::truth_text(true), "true");
    assert_eq!(minic::text::truth_text(false), "false");
}
