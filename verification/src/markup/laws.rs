//! What holds of the sanitiser on every input.
use vstd::prelude::*;
use crate::markup::code::{
    code_block_at, escape_char, escape_text, escaped_plain, extract_code, skeleton, Piece,
};
use crate::markup::render::{render, tag_end};
use crate::markup::sanitized;
use crate::markup::scan::{entity_end, run_end, tag_close, CharClass};

verus! {

/// Nothing in the text is markup: no code block, no tag and no entity starts anywhere.
pub open spec fn no_markup(s: Seq<char>) -> bool {
    forall|i: int|
        0 <= i < s.len() ==> code_block_at(s, i) is None && tag_end(s, i) is None && entity_end(
            s,
            i,
            s.len() as int,
        ) is None
}

/// The characters of `s` from `i` on, each escaped.
spec fn escaped_from(s: Seq<char>, i: int) -> Seq<char>
    decreases s.len() - i,
{
    if i < 0 || i >= s.len() {
        Seq::empty()
    } else {
        escape_char(s[i]) + escaped_from(s, i + 1)
    }
}

proof fn escaped_from_is_plain(s: Seq<char>, i: int)
    requires
        0 <= i <= s.len(),
    ensures
        escaped_plain(s, i) + escaped_from(s, i) == escaped_plain(s, s.len() as int),
    decreases s.len() - i,
{
    if i < s.len() {
        escaped_from_is_plain(s, i + 1);
        assert(escaped_plain(s, i) + escaped_from(s, i) =~= escaped_plain(s, i + 1) + escaped_from(
            s,
            i + 1,
        ));
    } else {
        assert(escaped_plain(s, i) + escaped_from(s, i) =~= escaped_plain(s, s.len() as int));
    }
}

/// The text from `i` on, one piece per character.
spec fn as_text(s: Seq<char>, i: int) -> Seq<Piece> {
    Seq::new((s.len() - i) as nat, |k: int| text_piece(s, i + k))
}

spec fn text_piece(s: Seq<char>, k: int) -> Piece {
    Piece::Text(s[k])
}

proof fn unmarked_pieces(s: Seq<char>, i: int)
    requires
        0 <= i <= s.len(),
        no_markup(s),
    ensures
        extract_code(s, i) == as_text(s, i),
    decreases s.len() - i,
{
    if i < s.len() {
        unmarked_pieces(s, i + 1);
        assert(text_piece(s, i) == Piece::Text(s[i]));
        assert(seq![Piece::Text(s[i])] + as_text(s, i + 1) =~= as_text(s, i));
    } else {
        assert(extract_code(s, i) =~= as_text(s, i));
    }
}

proof fn unmarked_render(s: Seq<char>, p: Seq<Piece>, closing: bool, i: int)
    requires
        0 <= i <= s.len(),
        no_markup(s),
        p == as_text(s, 0),
    ensures
        render(p, closing, i) == escaped_from(s, i),
    decreases s.len() - i,
{
    assert(skeleton(p) =~= s);
    if i < s.len() {
        unmarked_render(s, p, closing, i + 1);
    }
}

/// Text in which nothing is markup comes out with each of its characters escaped.
pub proof fn unmarked_text_is_escaped(s: Seq<char>)
    requires
        no_markup(s),
    ensures
        sanitized(s) == escaped_plain(s, s.len() as int),
{
    unmarked_pieces(s, 0);
    unmarked_render(s, as_text(s, 0), crate::markup::scan::first_code_close(
        skeleton(as_text(s, 0)),
        0,
    ) is Some, 0);
    escaped_from_is_plain(s, 0);
    assert(escaped_plain(s, 0) + escaped_from(s, 0) =~= escaped_from(s, 0));
}

proof fn no_close_without_gt(s: Seq<char>, i: int)
    requires
        forall|k: int| 0 <= k < s.len() ==> s[k] != '>',
    ensures
        tag_close(s, i) is None,
    decreases s.len() - i,
{
    if 0 <= i < s.len() {
        if s[i] == '"' || s[i] == '\'' {
            match crate::markup::scan::next_index_of(s, i + 1, s[i]) {
                Some(j) => {
                    if i < j < s.len() {
                        no_close_without_gt(s, j + 1);
                    }
                },
                None => {},
            }
        } else if s[i] != '<' {
            no_close_without_gt(s, i + 1);
        }
    }
}

proof fn run_end_in_range(s: Seq<char>, i: int, end: int, class: CharClass)
    requires
        0 <= i <= end <= s.len(),
    ensures
        i <= run_end(s, i, end, class) <= end,
        forall|k: int| i <= k < run_end(s, i, end, class) ==> class.holds(#[trigger] s[k]),
    decreases end - i,
{
    if i < end && class.holds(s[i]) {
        run_end_in_range(s, i + 1, end, class);
    }
}

/// Degrading to plain text: a text without `>` and without `;` holds no tag, no code block
/// and no entity, so each of its characters comes out escaped.
pub proof fn text_without_closers_is_escaped(s: Seq<char>)
    requires
        forall|k: int| 0 <= k < s.len() ==> s[k] != '>' && s[k] != ';',
    ensures
        sanitized(s) == escaped_plain(s, s.len() as int),
{
    assert forall|i: int| 0 <= i < s.len() implies code_block_at(s, i) is None && tag_end(s, i)
        is None && entity_end(s, i, s.len() as int) is None by {
        no_close_without_gt(s, i + 5);
        no_close_without_gt(s, i + 2);
        let end = s.len() as int;
        if i + 3 <= end {
            run_end_in_range(s, i + 3, end, CharClass::Hex);
        }
        if i + 2 <= end {
            run_end_in_range(s, i + 2, end, CharClass::Decimal);
            run_end_in_range(s, i + 2, end, CharClass::Alnum);
        }
    }
    unmarked_text_is_escaped(s);
}

proof fn plain_stays(s: Seq<char>, n: int)
    requires
        0 <= n <= s.len(),
        forall|k: int| 0 <= k < s.len() ==> s[k] != '<' && s[k] != '>' && s[k] != '&',
    ensures
        escaped_plain(s, n) == s.subrange(0, n),
    decreases n,
{
    if n > 0 {
        plain_stays(s, n - 1);
        assert(escaped_plain(s, n) =~= s.subrange(0, n));
    } else {
        assert(escaped_plain(s, n) =~= s.subrange(0, n));
    }
}

/// Text without `<`, `>` and `&` comes out as it went in.
pub proof fn text_without_markup_characters_is_unchanged(s: Seq<char>)
    requires
        forall|k: int| 0 <= k < s.len() ==> s[k] != '<' && s[k] != '>' && s[k] != '&',
    ensures
        sanitized(s) == s,
{
    assert forall|i: int| 0 <= i < s.len() implies code_block_at(s, i) is None && tag_end(s, i)
        is None && entity_end(s, i, s.len() as int) is None by {}
    unmarked_text_is_escaped(s);
    plain_stays(s, s.len() as int);
    assert(s.subrange(0, s.len() as int) =~= s);
}

/// An entity holds neither `<` nor `>`.
proof fn entity_has_no_brackets(s: Seq<char>, i: int, end: int)
    requires
        entity_end(s, i, end) is Some,
    ensures
        i < entity_end(s, i, end)->0 <= end,
        forall|k: int| i <= k < entity_end(s, i, end)->0 ==> s[k] != '<' && s[k] != '>',
{
    let e = entity_end(s, i, end)->0;
    if s[i + 1] == '#' {
        if i + 2 < end && s[i + 2] == 'x' {
            run_end_in_range(s, i + 3, end, CharClass::Hex);
        } else {
            run_end_in_range(s, i + 2, end, CharClass::Decimal);
        }
    } else {
        run_end_in_range(s, i + 2, end, CharClass::Alnum);
    }
}

/// The content of a code block is always escaped: what is written for it holds neither `<`
/// nor `>`, whatever it held.
pub proof fn code_content_has_no_brackets(s: Seq<char>, i: int, end: int)
    ensures
        forall|k: int|
            0 <= k < escape_text(s, i, end).len() ==> (#[trigger] escape_text(s, i, end)[k]) != '<'
                && escape_text(s, i, end)[k] != '>',
    decreases end - i,
{
    if !(i < 0 || i >= end || end > s.len()) {
        match entity_end(s, i, end) {
            Some(e) => {
                entity_has_no_brackets(s, i, end);
                code_content_has_no_brackets(s, e, end);
                let head = s.subrange(i, e);
                let tail = escape_text(s, e, end);
                assert forall|k: int| 0 <= k < escape_text(s, i, end).len() implies (
                #[trigger] escape_text(s, i, end)[k]) != '<' && escape_text(s, i, end)[k]
                    != '>' by {
                    if k < head.len() {
                        assert(escape_text(s, i, end)[k] == s[i + k]);
                    } else {
                        assert(escape_text(s, i, end)[k] == tail[k - head.len()]);
                    }
                }
            },
            None => {
                code_content_has_no_brackets(s, i + 1, end);
                let head = escape_char(s[i]);
                let tail = escape_text(s, i + 1, end);
                assert forall|k: int| 0 <= k < escape_text(s, i, end).len() implies (
                #[trigger] escape_text(s, i, end)[k]) != '<' && escape_text(s, i, end)[k]
                    != '>' by {
                    if k < head.len() {
                        assert(escape_text(s, i, end)[k] == head[k]);
                    } else {
                        assert(escape_text(s, i, end)[k] == tail[k - head.len()]);
                    }
                }
            },
        }
    }
}

} // verus!
