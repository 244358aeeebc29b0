use mofa_studio::text::{
    byte_len_up_to, char_is_digit, char_is_whitespace, chars_of, decimal_text, first_word_of,
    has_at, has_prefix, has_suffix, has_text, lines_of, padded_decimal_text, slice_of, string_of,
    trimmed, with_char_replaced, without_pairs,
};

fn chars(s: &str) -> Vec<char> {
    s.chars().collect()
}

fn text(v: Vec<char>) -> String {
    v.into_iter().collect()
}

#[test]
fn strings_and_characters_convert_both_ways() {
    assert_eq!(chars_of("héllo"), chars("héllo"));
    assert_eq!(string_of(&chars("héllo")), "héllo");
    assert!(chars_of("").is_empty());
}

#[test]
fn white_space_is_what_unicode_says() {
    for c in [' ', '\t', '\n', '\r', '\u{0b}', '\u{0c}', '\u{85}', '\u{a0}', '\u{1680}', '\u{2003}', '\u{2028}', '\u{2029}', '\u{202f}', '\u{205f}', '\u{3000}'] {
        assert!(char_is_whitespace(c), "{:?}", c);
        assert!(c.is_whitespace());
    }
    for c in ['a', '0', '_', '\u{200b}', '\u{feff}', '\u{1c}'] {
        assert_eq!(char_is_whitespace(c), c.is_whitespace(), "{:?}", c);
    }
    assert!(char_is_digit('0') && char_is_digit('9'));
    assert!(!char_is_digit('a') && !char_is_digit('/') && !char_is_digit(':'));
}

#[test]
fn numbers_are_written_in_decimal() {
    assert_eq!(decimal_text(0), "0");
    assert_eq!(decimal_text(9), "9");
    assert_eq!(decimal_text(10), "10");
    assert_eq!(decimal_text(65535), "65535");
    assert_eq!(decimal_text(u64::MAX), "18446744073709551615");
    assert_eq!(padded_decimal_text(5, 4), "0005");
    assert_eq!(padded_decimal_text(12345, 4), "12345");
    assert_eq!(padded_decimal_text(0, 0), "0");
}

#[test]
fn trimming_removes_white_space_at_both_ends() {
    assert_eq!(text(trimmed(&chars("  a b \t\n"))), "a b");
    assert_eq!(text(trimmed(&chars("   "))), "");
    assert_eq!(text(trimmed(&chars(""))), "");
    assert_eq!(text(trimmed(&chars("x"))), "x");
    assert_eq!(text(slice_of(&chars("hello"), 1, 3)), "el");
}

#[test]
fn patterns_are_found() {
    let s = chars("hello world");
    assert!(has_prefix(&s, &chars("hello")));
    assert!(!has_prefix(&s, &chars("world")));
    assert!(has_prefix(&s, &chars("")));
    assert!(has_suffix(&s, &chars("world")));
    assert!(!has_suffix(&s, &chars("hello")));
    assert!(has_text(&s, &chars("o w")));
    assert!(!has_text(&s, &chars("ow")));
    assert!(has_text(&s, &chars("")));
    assert!(has_at(&s, 6, &chars("world")));
    assert!(!has_at(&s, 7, &chars("world")));
    assert!(!has_at(&s, 100, &chars("")));
}

#[test]
fn pairs_are_removed_from_the_left() {
    assert_eq!(text(without_pairs(&chars("**Host**"), '*')), "Host");
    assert_eq!(text(without_pairs(&chars("***"), '*')), "*");
    assert_eq!(text(without_pairs(&chars("a*b"), '*')), "a*b");
    assert_eq!(text(without_pairs(&chars("****"), '*')), "");
    assert_eq!(text(with_char_replaced(&chars("a b c"), ' ', '_')), "a_b_c");
}

#[test]
fn bytes_are_counted_up_to_a_limit() {
    let s = chars("aé中😀");
    assert_eq!(byte_len_up_to(&s, 0, 4, 100), 10);
    assert_eq!(byte_len_up_to(&s, 1, 3, 100), 5);
    assert!(byte_len_up_to(&s, 0, 4, 5) > 5);
    assert_eq!(byte_len_up_to(&s, 2, 2, 0), 0);
}

#[test]
fn texts_are_split_into_lines() {
    let split = |s: &str| -> Vec<String> { lines_of(&chars(s)).into_iter().map(text).collect() };
    for s in ["", "a", "a\n", "a\nb", "a\n\nb\n", "\n", "a\r\nb\r\n", "a\rb", "\r\n", "a\n\r\nb"] {
        let expected: Vec<String> = s.lines().map(|l| l.to_string()).collect();
        assert_eq!(split(s), expected, "{:?}", s);
    }
}

#[test]
fn the_first_word_is_found() {
    assert_eq!(first_word_of(&chars("  Alex   en_US")).map(text).as_deref(), Some("Alex"));
    assert_eq!(first_word_of(&chars("Alex")).map(text).as_deref(), Some("Alex"));
    assert_eq!(first_word_of(&chars("   ")), None);
    assert_eq!(first_word_of(&chars("")), None);
}

#[test]
fn white_space_agrees_with_the_standard_library_on_every_character() {
    for code in 0..=0x10FFFFu32 {
        if let Some(c) = char::from_u32(code) {
            assert_eq!(char_is_whitespace(c), c.is_whitespace(), "U+{:04X}", code);
            assert_eq!(char_is_digit(c), c.is_ascii_digit(), "U+{:04X}", code);
        }
    }
}

#[test]
fn byte_counts_agree_with_the_standard_library() {
    for code in [0u32, 0x7f, 0x80, 0x7ff, 0x800, 0xd7ff, 0xe000, 0xffff, 0x10000, 0x10ffff] {
        let c = char::from_u32(code).unwrap();
        assert_eq!(byte_len_up_to(&vec![c], 0, 1, 10), c.len_utf8(), "U+{:04X}", code);
    }
}

#[test]
fn trimming_and_decimal_agree_with_the_standard_library() {
    for s in [" a ", "\u{3000}x\u{a0}", "\t\n\r", "no space", " \u{200b} ", "a  b"] {
        assert_eq!(text(trimmed(&chars(s))), s.trim(), "{:?}", s);
    }
    for n in [0u64, 1, 9, 10, 99, 100, 1234567890, u64::MAX - 1] {
        assert_eq!(decimal_text(n), n.to_string());
        assert_eq!(padded_decimal_text(n, 4), format!("{:04}", n));
    }
}
