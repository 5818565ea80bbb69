//! Recognisers of the markup grammar: quoted attributes, tags, code tags and character
//! entities. Each is a spec function on a sequence of characters and an executable function
//! that computes it.
use vstd::prelude::*;
use crate::markup::classes::{
    ascii_alnum, ascii_letter, ascii_lower, decimal_digit, hex_digit, is_ascii_alnum, is_ascii_letter,
    is_decimal_digit, is_hex_digit, lower,
};

verus! {

/// An executable position agrees with a position of the model.
pub open spec fn same_place(found: Option<usize>, model: Option<int>) -> bool {
    match (found, model) {
        (Some(a), Some(b)) => a as int == b,
        (None, None) => true,
        _ => false,
    }
}

/// The first index at or after `from` that holds `c`.
pub open spec fn next_index_of(s: Seq<char>, from: int, c: char) -> Option<int>
    decreases s.len() - from,
{
    if from < 0 || from >= s.len() {
        None
    } else if s[from] == c {
        Some(from)
    } else {
        next_index_of(s, from + 1, c)
    }
}

/// The index of the `>` that ends a tag whose attributes start at `i`: attributes are
/// characters other than quotes and angle brackets, and quoted strings, in which anything but
/// the quote itself may stand. There is none where a `<`, the end of the text or a quote
/// without its partner comes first.
pub open spec fn tag_close(s: Seq<char>, i: int) -> Option<int>
    decreases s.len() - i,
{
    if i < 0 || i >= s.len() {
        None
    } else if s[i] == '>' {
        Some(i)
    } else if s[i] == '<' {
        None
    } else if s[i] == '"' || s[i] == '\'' {
        match next_index_of(s, i + 1, s[i]) {
            Some(j) => if i < j < s.len() {
                tag_close(s, j + 1)
            } else {
                None
            },
            None => None,
        }
    } else {
        tag_close(s, i + 1)
    }
}

/// `<code` stands at `i`, in any mix of cases.
pub open spec fn code_open_at(s: Seq<char>, i: int) -> bool {
    &&& 0 <= i
    &&& i + 5 <= s.len()
    &&& s[i] == '<'
    &&& ascii_lower(s[i + 1]) == 'c'
    &&& ascii_lower(s[i + 2]) == 'o'
    &&& ascii_lower(s[i + 3]) == 'd'
    &&& ascii_lower(s[i + 4]) == 'e'
}

/// `</code` stands at `i`, in any mix of cases.
pub open spec fn code_close_stem_at(s: Seq<char>, i: int) -> bool {
    &&& 0 <= i
    &&& i + 6 <= s.len()
    &&& s[i] == '<'
    &&& s[i + 1] == '/'
    &&& ascii_lower(s[i + 2]) == 'c'
    &&& ascii_lower(s[i + 3]) == 'o'
    &&& ascii_lower(s[i + 4]) == 'd'
    &&& ascii_lower(s[i + 5]) == 'e'
}

/// `</code>` stands at `i`, in any mix of cases.
pub open spec fn code_close_at(s: Seq<char>, i: int) -> bool {
    &&& code_close_stem_at(s, i)
    &&& i + 7 <= s.len()
    &&& s[i + 6] == '>'
}

/// The first index at or after `from` at which `</code>` stands.
pub open spec fn first_code_close(s: Seq<char>, from: int) -> Option<int>
    decreases s.len() - from,
{
    if from < 0 || from >= s.len() {
        None
    } else if code_close_at(s, from) {
        Some(from)
    } else {
        first_code_close(s, from + 1)
    }
}

/// The classes of characters of which an entity's body is made.
#[derive(Clone, Copy, Debug)]
pub enum CharClass {
    Hex,
    Decimal,
    Alnum,
}

impl CharClass {
    /// Whether `c` is of the class.
    pub open spec fn holds(self, c: char) -> bool {
        match self {
            CharClass::Hex => is_hex_digit(c),
            CharClass::Decimal => is_decimal_digit(c),
            CharClass::Alnum => is_ascii_alnum(c),
        }
    }

    pub(crate) fn test(self, c: char) -> (r: bool)
        ensures
            r == self.holds(c),
    {
        match self {
            CharClass::Hex => hex_digit(c),
            CharClass::Decimal => decimal_digit(c),
            CharClass::Alnum => ascii_alnum(c),
        }
    }
}

/// The first index at or after `i` and before `end` whose character is not of `class`;
/// `end` where there is none.
pub open spec fn run_end(s: Seq<char>, i: int, end: int, class: CharClass) -> int
    decreases end - i,
{
    if i < 0 || i >= end || i >= s.len() || !class.holds(s[i]) {
        i
    } else {
        run_end(s, i + 1, end, class)
    }
}

/// The index after the `;` that closes a run of `class` starting at `from`, of at least
/// `least` characters, before `end`.
pub open spec fn closed_run(s: Seq<char>, from: int, end: int, class: CharClass, least: int) -> Option<int> {
    let stop = run_end(s, from, end, class);
    if stop - from >= least && 0 <= stop < end && stop < s.len() && s[stop] == ';' {
        Some(stop + 1)
    } else {
        None
    }
}

/// The index after the character entity that starts at `i` and ends before `end`: `&`, then
/// `#x` and hexadecimal digits, or `#` and decimal digits, or a letter and then letters and
/// digits, then `;`.
pub open spec fn entity_end(s: Seq<char>, i: int, end: int) -> Option<int> {
    if !(0 <= i && i + 1 < end && end <= s.len() && s[i] == '&') {
        None
    } else if s[i + 1] == '#' {
        if i + 2 < end && s[i + 2] == 'x' {
            closed_run(s, i + 3, end, CharClass::Hex, 1)
        } else {
            closed_run(s, i + 2, end, CharClass::Decimal, 1)
        }
    } else if is_ascii_letter(s[i + 1]) {
        closed_run(s, i + 2, end, CharClass::Alnum, 0)
    } else {
        None
    }
}

pub(crate) fn find_char(s: &Vec<char>, from: usize, c: char) -> (found: Option<usize>)
    ensures
        same_place(found, next_index_of(s@, from as int, c)),
        found matches Some(j) ==> from <= j < s.len(),
{
    let mut i = from;
    while i < s.len()
        invariant
            from <= i,
            next_index_of(s@, from as int, c) == next_index_of(s@, i as int, c),
        decreases s.len() - i,
    {
        if s[i] == c {
            return Some(i);
        }
        i += 1;
    }
    None
}

pub(crate) fn find_tag_close(s: &Vec<char>, from: usize) -> (found: Option<usize>)
    ensures
        same_place(found, tag_close(s@, from as int)),
        found matches Some(j) ==> from <= j < s.len(),
{
    let mut i = from;
    while i < s.len()
        invariant
            from <= i,
            tag_close(s@, from as int) == tag_close(s@, i as int),
        decreases s.len() - i,
    {
        let c = s[i];
        if c == '>' {
            return Some(i);
        } else if c == '<' {
            return None;
        } else if c == '"' || c == '\'' {
            match find_char(s, i + 1, c) {
                Some(j) => {
                    i = j + 1;
                },
                None => {
                    return None;
                },
            }
        } else {
            i += 1;
        }
    }
    None
}

pub(crate) fn is_code_open_at(s: &Vec<char>, i: usize) -> (r: bool)
    ensures
        r == code_open_at(s@, i as int),
{
    i < s.len() && s.len() - i >= 5 && s[i] == '<' && lower(s[i + 1]) == 'c' && lower(s[i + 2])
        == 'o' && lower(s[i + 3]) == 'd' && lower(s[i + 4]) == 'e'
}

pub(crate) fn is_code_close_stem_at(s: &Vec<char>, i: usize) -> (r: bool)
    ensures
        r == code_close_stem_at(s@, i as int),
{
    i < s.len() && s.len() - i >= 6 && s[i] == '<' && s[i + 1] == '/' && lower(s[i + 2]) == 'c'
        && lower(s[i + 3]) == 'o' && lower(s[i + 4]) == 'd' && lower(s[i + 5]) == 'e'
}

pub(crate) fn is_code_close_at(s: &Vec<char>, i: usize) -> (r: bool)
    ensures
        r == code_close_at(s@, i as int),
{
    is_code_close_stem_at(s, i) && s.len() - i >= 7 && s[i + 6] == '>'
}

pub(crate) fn find_code_close(s: &Vec<char>, from: usize) -> (found: Option<usize>)
    ensures
        same_place(found, first_code_close(s@, from as int)),
        found matches Some(j) ==> from <= j && j + 7 <= s.len(),
{
    let mut i = from;
    while i < s.len()
        invariant
            from <= i,
            first_code_close(s@, from as int) == first_code_close(s@, i as int),
        decreases s.len() - i,
    {
        if is_code_close_at(s, i) {
            return Some(i);
        }
        i += 1;
    }
    None
}

pub(crate) fn find_run_end(s: &Vec<char>, from: usize, end: usize, class: CharClass) -> (stop: usize)
    requires
        end <= s.len(),
    ensures
        stop as int == run_end(s@, from as int, end as int, class),
        from <= stop,
        from <= end ==> stop <= end,
{
    let mut i = from;
    while i < end
        invariant
            from <= i,
            end <= s.len(),
            from <= end ==> i <= end,
            run_end(s@, from as int, end as int, class) == run_end(s@, i as int, end as int, class),
        decreases end - i,
    {
        if !class.test(s[i]) {
            return i;
        }
        i += 1;
    }
    i
}

pub(crate) fn find_closed_run(s: &Vec<char>, from: usize, end: usize, class: CharClass, least: usize) -> (found: Option<usize>)
    requires
        end <= s.len(),
    ensures
        same_place(found, closed_run(s@, from as int, end as int, class, least as int)),
        found matches Some(j) ==> from < j <= end,
{
    let stop = find_run_end(s, from, end, class);
    if stop - from >= least && stop < end && s[stop] == ';' {
        Some(stop + 1)
    } else {
        None
    }
}

pub(crate) fn find_entity_end(s: &Vec<char>, i: usize, end: usize) -> (found: Option<usize>)
    requires
        end <= s.len(),
    ensures
        same_place(found, entity_end(s@, i as int, end as int)),
        found matches Some(j) ==> i < j <= end,
{
    if !(i < end && end - i > 1 && s[i] == '&') {
        None
    } else if s[i + 1] == '#' {
        if end - i > 2 && s[i + 2] == 'x' {
            find_closed_run(s, i + 3, end, CharClass::Hex, 1)
        } else {
            find_closed_run(s, i + 2, end, CharClass::Decimal, 1)
        }
    } else if ascii_letter(s[i + 1]) {
        find_closed_run(s, i + 2, end, CharClass::Alnum, 0)
    } else {
        None
    }
}

} // verus!
