//! Character classes of the markup grammar.
use vstd::prelude::*;

verus! {

/// Whether the regular expression `pattern` matches somewhere in `text`, as the `regex`
/// crate decides it.
pub uninterp spec fn regex_is_match(pattern: Seq<char>, text: Seq<char>) -> bool;

/// The pattern of Unicode word characters.
pub open spec fn word_pattern() -> Seq<char> {
    "\\w"@
}

/// The pattern of Unicode decimal digits.
pub open spec fn digit_pattern() -> Seq<char> {
    "\\d"@
}

/// Calls `regex::Regex::new` on `pattern` and `Regex::is_match` on `text`.
/// Believed, not proved: the result is that of the crate's matcher for this pattern and this
/// text. Only the two class patterns are admitted, both of which the crate compiles.
#[verifier::external_body]
fn class_matches(pattern: &str, text: &str) -> (found: bool)
    requires
        pattern@ == word_pattern() || pattern@ == digit_pattern(),
    ensures
        found == regex_is_match(pattern@, text@),
{
    match regex::Regex::new(pattern) {
        Ok(re) => re.is_match(text),
        Err(_) => false,
    }
}

/// The first 128 characters.
pub open spec fn is_ascii(c: char) -> bool {
    (c as u32) < 128
}

/// `0` to `9`.
pub open spec fn is_ascii_digit(c: char) -> bool {
    '0' <= c <= '9'
}

/// `a` to `z` and `A` to `Z`.
pub open spec fn is_ascii_letter(c: char) -> bool {
    ('a' <= c <= 'z') || ('A' <= c <= 'Z')
}

/// The ASCII letters and digits.
pub open spec fn is_ascii_alnum(c: char) -> bool {
    is_ascii_letter(c) || is_ascii_digit(c)
}

/// The digits of hexadecimal notation, in either case.
pub open spec fn is_hex_digit(c: char) -> bool {
    is_ascii_digit(c) || ('a' <= c <= 'f') || ('A' <= c <= 'F')
}

/// A word character: among ASCII the letters, the digits and the underscore; beyond ASCII
/// whatever the `regex` crate's class `\w` holds.
pub open spec fn is_word_char(c: char) -> bool {
    if is_ascii(c) {
        is_ascii_alnum(c) || c == '_'
    } else {
        regex_is_match(word_pattern(), seq![c])
    }
}

/// A decimal digit: among ASCII `0` to `9`; beyond ASCII whatever the `regex` crate's class
/// `\d` holds.
pub open spec fn is_decimal_digit(c: char) -> bool {
    if is_ascii(c) {
        is_ascii_digit(c)
    } else {
        regex_is_match(digit_pattern(), seq![c])
    }
}

/// `c` in lower case where it is an ASCII capital, else `c`.
pub open spec fn ascii_lower(c: char) -> char {
    if 'A' <= c <= 'Z' {
        ((c as u8) + 32) as char
    } else {
        c
    }
}

/// Whether `c` is one of `0` to `9`.
pub fn ascii_digit(c: char) -> (r: bool)
    ensures
        r == is_ascii_digit(c),
{
    '0' <= c && c <= '9'
}

/// Whether `c` is an ASCII letter.
pub fn ascii_letter(c: char) -> (r: bool)
    ensures
        r == is_ascii_letter(c),
{
    ('a' <= c && c <= 'z') || ('A' <= c && c <= 'Z')
}

/// Whether `c` is an ASCII letter or digit.
pub fn ascii_alnum(c: char) -> (r: bool)
    ensures
        r == is_ascii_alnum(c),
{
    ascii_letter(c) || ascii_digit(c)
}

/// Whether `c` is a digit of hexadecimal notation.
pub fn hex_digit(c: char) -> (r: bool)
    ensures
        r == is_hex_digit(c),
{
    ascii_digit(c) || ('a' <= c && c <= 'f') || ('A' <= c && c <= 'F')
}

fn single(c: char) -> (s: String)
    ensures
        s@ == seq![c],
{
    let mut s = String::new();
    s.push(c);
    proof {
        assert(s@ =~= seq![c]);
    }
    s
}

/// Whether `c` is a word character.
pub fn word_char(c: char) -> (r: bool)
    ensures
        r == is_word_char(c),
{
    if (c as u32) < 128 {
        ascii_alnum(c) || c == '_'
    } else {
        let s = single(c);
        class_matches("\\w", s.as_str())
    }
}

/// Whether `c` is a decimal digit.
pub fn decimal_digit(c: char) -> (r: bool)
    ensures
        r == is_decimal_digit(c),
{
    if (c as u32) < 128 {
        ascii_digit(c)
    } else {
        let s = single(c);
        class_matches("\\d", s.as_str())
    }
}

/// `c` in lower case where it is an ASCII capital, else `c`.
pub fn lower(c: char) -> (r: char)
    ensures
        r == ascii_lower(c),
{
    if 'A' <= c && c <= 'Z' {
        ((c as u8) + 32) as char
    } else {
        c
    }
}

} // verus!
