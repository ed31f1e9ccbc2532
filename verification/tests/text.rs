use rss_gen::generator::{is_control, sanitize_content};
use rss_gen::text::{
    chars_match_at, decimal_text, find_from, find_quoted_after, is_white_space, join, join3,
    parse_number, same_text, split_at_char, split_words, starts_with, to_chars, IntoText,
};

fn chars(s: &str) -> Vec<char> {
    s.chars().collect()
}

fn strings(parts: Vec<Vec<char>>) -> Vec<String> {
    parts.into_iter().map(|p| p.into_iter().collect()).collect()
}

#[test]
fn white_space_is_what_the_standard_library_says() {
    for code in 0..=0x10ffffu32 {
        if let Some(c) = char::from_u32(code) {
            assert_eq!(is_white_space(c), c.is_whitespace(), "U+{:04X}", code);
        }
    }
}

#[test]
fn control_characters_are_what_the_standard_library_says() {
    for code in 0..=0x10ffffu32 {
        if let Some(c) = char::from_u32(code) {
            assert_eq!(is_control(c), c.is_control(), "U+{:04X}", code);
        }
    }
}

#[test]
fn control_characters_are_removed_from_content() {
    assert_eq!(sanitize_content("a\u{0}b\u{1f}c\u{7f}d\u{85}e\u{9f}f"), "abcdef");
    assert_eq!(sanitize_content("a\nb\rc\td\u{a0}e\u{20}f\u{a1}"), "a\nb\rc\td\u{a0}e\u{20}f\u{a1}");
    assert_eq!(sanitize_content("\u{0}<\u{1}"), "&lt;");
}

#[test]
fn texts_are_split_into_words_as_the_standard_library_does() {
    for text in [
        "",
        " ",
        "one",
        " one",
        "one ",
        "  one  two\tthree\nfour\u{a0}five\u{3000}six  ",
        "Mon, 01 Jan 2024 00:00:00 GMT",
        "\u{85}x\u{2028}y\u{feff}z",
    ] {
        let expected: Vec<String> = text.split_whitespace().map(|w| w.to_string()).collect();
        assert_eq!(strings(split_words(&chars(text))), expected, "{:?}", text);
    }
}

#[test]
fn texts_are_split_at_a_character_as_the_standard_library_does() {
    for text in ["", ":", "a", "a:b", "a:b:c", ":a", "a:", "::", "00:00:00", "a::b:"] {
        let expected: Vec<String> = text.split(':').map(|w| w.to_string()).collect();
        assert_eq!(strings(split_at_char(&chars(text), ':')), expected, "{:?}", text);
    }
}

#[test]
fn numbers_are_read_as_the_standard_library_does() {
    let texts = [
        "", "+", "-", "0", "00", "-0", "+0", "7", "+7", "-7", "007", "127", "128", "-128",
        "-129", "255", "256", "+255", "-1", "1 ", " 1", "1a", "a1", "--1", "+-1", "1.0", "١",
        "2147483647", "2147483648", "-2147483648", "-2147483649", "99999999999999999999",
        "-99999999999999999999", "0000000000000000000000000000001", "9223372036854775807",
        "9223372036854775808", "-9223372036854775808", "-9223372036854775809",
    ];
    for text in texts {
        let v = chars(text);
        assert_eq!(
            parse_number(&v, false, 0, 255),
            text.parse::<u8>().ok().map(|n| n as i64),
            "u8 {:?}",
            text
        );
        assert_eq!(
            parse_number(&v, true, -128, 127),
            text.parse::<i8>().ok().map(|n| n as i64),
            "i8 {:?}",
            text
        );
        assert_eq!(
            parse_number(&v, true, -2147483648, 2147483647),
            text.parse::<i32>().ok().map(|n| n as i64),
            "i32 {:?}",
            text
        );
        assert_eq!(
            parse_number(&v, true, i64::MIN, i64::MAX),
            text.parse::<i64>().ok(),
            "i64 {:?}",
            text
        );
    }
}

#[test]
fn numbers_are_written_in_decimal() {
    for n in [0usize, 1, 9, 10, 11, 99, 100, 101, 2000, 65535, usize::MAX] {
        assert_eq!(decimal_text(n), n.to_string());
    }
}

#[test]
fn texts_are_compared_and_joined() {
    assert!(same_text("", ""));
    assert!(same_text("é", "\u{e9}"));
    assert!(!same_text("a", "A"));
    assert!(!same_text("a", "ab"));
    assert_eq!(join("a", "b"), "ab");
    assert_eq!(join("", ""), "");
    assert_eq!(join3("a", "é", "c"), "aéc");
    assert_eq!(to_chars("aé"), vec!['a', 'é']);
    assert_eq!("a".into_text(), "a");
    assert_eq!(String::from("b").into_text(), "b");
    assert_eq!((&String::from("c")).into_text(), "c");
}

#[test]
fn prefixes_and_patterns_are_found() {
    assert!(starts_with("http://x", "http://"));
    assert!(starts_with("x", ""));
    assert!(starts_with("", ""));
    assert!(!starts_with("htt", "http://"));
    assert!(!starts_with("xhttp://", "http://"));
    let text = chars("abcabc");
    assert!(chars_match_at(&text, 3, &chars("abc")));
    assert!(chars_match_at(&text, 6, &chars("")));
    assert!(!chars_match_at(&text, 7, &chars("")));
    assert!(!chars_match_at(&text, 4, &chars("abc")));
    assert!(!chars_match_at(&text, usize::MAX, &chars("a")));
    assert_eq!(find_from(&text, &chars("bc"), 0), Some(1));
    assert_eq!(find_from(&text, &chars("bc"), 2), Some(4));
    assert_eq!(find_from(&text, &chars("bc"), 5), None);
    assert_eq!(find_from(&text, &chars(""), 6), Some(6));
    assert_eq!(find_from(&text, &chars(""), 7), None);
    assert_eq!(find_from(&text, &chars("abcabcd"), 0), None);
    assert_eq!(find_quoted_after("k=\"v\" k=\"w\"", "k=\""), Some("v".to_string()));
    assert_eq!(find_quoted_after("k=\"v", "k=\""), None);
    assert_eq!(find_quoted_after("k=v\"", "k=\""), None);
    assert_eq!(find_quoted_after("k=\"\"", "k=\""), Some(String::new()));
}
