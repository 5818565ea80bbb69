use regex::Regex;
use tscrapingbot_rs::markup::classes::{
    ascii_alnum, ascii_digit, ascii_letter, decimal_digit, hex_digit, lower, word_char,
};
use tscrapingbot_rs::text::{
    append_decimal, append_joined, chars_of, contains_text, same_text, string_of, trim_bounds, trimmed_chars,
    white_space,
};

fn every_char() -> impl Iterator<Item = char> {
    (0u32..=0x10FFFF).filter_map(char::from_u32)
}

#[test]
fn white_space_is_the_unicode_property() {
    for c in every_char() {
        assert_eq!(white_space(c), c.is_whitespace(), "char {:?}", c);
    }
}

#[test]
fn ascii_classes_are_those_of_std() {
    for c in every_char() {
        assert_eq!(ascii_digit(c), c.is_ascii_digit(), "char {:?}", c);
        assert_eq!(ascii_letter(c), c.is_ascii_alphabetic(), "char {:?}", c);
        assert_eq!(ascii_alnum(c), c.is_ascii_alphanumeric(), "char {:?}", c);
        assert_eq!(hex_digit(c), c.is_ascii_hexdigit(), "char {:?}", c);
        assert_eq!(lower(c), c.to_ascii_lowercase(), "char {:?}", c);
    }
}

#[test]
fn word_and_digit_classes_are_those_of_the_pattern_language() {
    let word = Regex::new(r"^\w$").unwrap();
    let digit = Regex::new(r"^\d$").unwrap();
    let mut buf = [0u8; 4];
    for code in (0u32..0x250).chain([0x661, 0x6f0, 0x966, 0x200c, 0x200d, 0x203f, 0x2014, 0x212a, 0xff11, 0xff21, 0x1d7ce, 0x1f600]) {
        let Some(c) = char::from_u32(code) else { continue };
        let s = c.encode_utf8(&mut buf);
        assert_eq!(word_char(c), word.is_match(s), "char {:?}", c);
        assert_eq!(decimal_digit(c), digit.is_match(s), "char {:?}", c);
    }
}

#[test]
fn strings_and_characters_convert_both_ways() {
    for text in ["", "a", "na\u{ef}ve \u{1f600}\n", "\u{0}\u{7}"] {
        let chars = chars_of(text);
        assert_eq!(chars, text.chars().collect::<Vec<char>>());
        assert_eq!(string_of(&chars), text);
    }
}

#[test]
fn trimming_is_that_of_std() {
    for text in ["", " ", "a", "  a b \t\n", "\u{a0}x\u{3000}", "\u{200b}x ", "\u{85}\u{1680}y\u{2028}\u{2029}\u{202f}\u{205f}"] {
        assert_eq!(string_of(&trimmed_chars(text)), text.trim(), "text {:?}", text);
        let chars = chars_of(text);
        let (lo, hi) = trim_bounds(&chars);
        assert_eq!(chars[lo..hi].iter().collect::<String>(), text.trim());
    }
}

#[test]
fn numbers_are_written_in_decimal() {
    for n in [0u64, 1, 9, 10, 11, 99, 100, 12345, 65535, 4294967296, u64::MAX] {
        let mut out = vec!['#'];
        append_decimal(&mut out, n);
        assert_eq!(out.iter().collect::<String>(), format!("#{}", n));
    }
}

#[test]
fn joining_puts_the_separator_between() {
    let mut out = vec!['>'];
    append_joined(&mut out, &vec!["a".to_string(), "".to_string(), "b".to_string()], ", ");
    assert_eq!(out.iter().collect::<String>(), ">a, , b");
    let mut out: Vec<char> = Vec::new();
    append_joined(&mut out, &Vec::new(), ", ");
    assert!(out.is_empty());
}

#[test]
fn texts_are_compared_and_searched() {
    assert!(same_text("", ""));
    assert!(same_text("abc", "abc"));
    assert!(!same_text("abc", "abd"));
    assert!(!same_text("abc", "ab"));
    for (text, pattern) in [("", ""), ("abc", ""), ("abc", "bc"), ("abc", "abcd"), ("aab", "ab"), ("ab", "ba"), ("\u{e9}x", "x")] {
        assert_eq!(contains_text(text, pattern), text.contains(pattern), "{:?} in {:?}", pattern, text);
    }
}
