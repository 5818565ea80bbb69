//! The later passes of the sanitiser, as one walk over the pieces: tags and entities are
//! written out as they stand, code blocks as the first pass left them, and all other text
//! escaped.
use vstd::prelude::*;
use crate::markup::classes::{ascii_letter, is_ascii_letter};
use crate::markup::code::{escape_char, push_escaped, skeleton, Piece, Pieces};
use crate::markup::scan::{
    code_close_stem_at, code_open_at, entity_end, find_entity_end, find_tag_close,
    is_code_close_stem_at, is_code_open_at, tag_close,
};

verus! {

/// A piece written out untouched.
pub open spec fn piece_raw(p: Piece) -> Seq<char> {
    match p {
        Piece::Text(c) => seq![c],
        Piece::Code(block) => block,
    }
}

/// A piece written out as plain text: a character is escaped, a code block is not escaped
/// again.
pub open spec fn piece_escaped(p: Piece) -> Seq<char> {
    match p {
        Piece::Text(c) => escape_char(c),
        Piece::Code(block) => block,
    }
}

/// The pieces from `i` to `end`, untouched.
pub open spec fn raw_span(p: Seq<Piece>, i: int, end: int) -> Seq<char>
    decreases end - i,
{
    if i < 0 || i >= end || end > p.len() {
        Seq::empty()
    } else {
        piece_raw(p[i]) + raw_span(p, i + 1, end)
    }
}

/// The pieces from `i` to `end` as plain text: entities stay, the rest is escaped.
pub open spec fn escaped_span(p: Seq<Piece>, i: int, end: int) -> Seq<char>
    decreases end - i,
{
    if i < 0 || i >= end || end > p.len() {
        Seq::empty()
    } else {
        match entity_end(skeleton(p), i, end) {
            Some(e) => if i < e <= end {
                raw_span(p, i, e) + escaped_span(p, e, end)
            } else {
                Seq::empty()
            },
            None => piece_escaped(p[i]) + escaped_span(p, i + 1, end),
        }
    }
}

/// The index of the `>` that ends the opening or closing tag that starts at `i`: `<`, a
/// letter or `/`, attributes, `>`.
pub open spec fn tag_end(k: Seq<char>, i: int) -> Option<int> {
    if 0 <= i && i + 1 < k.len() && k[i] == '<' && (is_ascii_letter(k[i + 1]) || k[i + 1] == '/') {
        tag_close(k, i + 2)
    } else {
        None
    }
}

/// The tag at `i` begins like a code tag, opening or closing.
pub open spec fn is_code_tag(k: Seq<char>, i: int) -> bool {
    code_open_at(k, i) || code_close_stem_at(k, i)
}

/// The pieces from `i` on, written out. A tag stays as it is, unless it begins like a code
/// tag while the text holds no closing code tag (`closing` says whether it holds one): such a
/// tag is plain text. Outside tags, entities stay and the rest is escaped.
pub open spec fn render(p: Seq<Piece>, closing: bool, i: int) -> Seq<char>
    decreases p.len() - i,
{
    if i < 0 || i >= p.len() {
        Seq::empty()
    } else {
        match tag_end(skeleton(p), i) {
            Some(j) => if i < j < p.len() {
                (if closing || !is_code_tag(skeleton(p), i) {
                    raw_span(p, i, j + 1)
                } else {
                    escaped_span(p, i, j + 1)
                }) + render(p, closing, j + 1)
            } else {
                Seq::empty()
            },
            None => match entity_end(skeleton(p), i, p.len() as int) {
                Some(e) => if i < e <= p.len() {
                    raw_span(p, i, e) + render(p, closing, e)
                } else {
                    Seq::empty()
                },
                None => piece_escaped(p[i]) + render(p, closing, i + 1),
            },
        }
    }
}

pub(crate) fn find_tag_end(k: &Vec<char>, i: usize) -> (found: Option<usize>)
    ensures
        match found {
            Some(j) => tag_end(k@, i as int) == Some(j as int) && i < j < k.len(),
            None => tag_end(k@, i as int) is None,
        },
{
    if i < k.len() && k.len() - i > 1 && k[i] == '<' && (ascii_letter(k[i + 1]) || k[i + 1] == '/') {
        find_tag_close(k, i + 2)
    } else {
        None
    }
}

fn append_raw(out: &mut Vec<char>, pieces: &Pieces, from: usize, end: usize)
    requires
        pieces.wf(),
        from <= end <= pieces.skel.len(),
    ensures
        final(out)@ == old(out)@ + raw_span(pieces@, from as int, end as int),
{
    let mut i = from;
    proof {
        assert(out@ + raw_span(pieces@, from as int, end as int) =~= old(out)@ + raw_span(
            pieces@,
            from as int,
            end as int,
        ));
    }
    while i < end
        invariant
            pieces.wf(),
            from <= i <= end <= pieces.skel.len(),
            out@ + raw_span(pieces@, i as int, end as int) == old(out)@ + raw_span(
                pieces@,
                from as int,
                end as int,
            ),
        decreases end - i,
    {
        let ghost before = out@;
        let ghost rest = raw_span(pieces@, i as int, end as int);
        match &pieces.code[i] {
            Some(block) => {
                let ghost prior = out@;
                let mut n: usize = 0;
                while n < block.len()
                    invariant
                        n <= block.len(),
                        out@ == prior + block@.subrange(0, n as int),
                    decreases block.len() - n,
                {
                    out.push(block[n]);
                    proof {
                        assert(out@ =~= prior + block@.subrange(0, n as int + 1));
                    }
                    n += 1;
                }
                proof {
                    assert(block@.subrange(0, block@.len() as int) =~= block@);
                    assert(piece_raw(pieces@[i as int]) == block@);
                }
            },
            None => {
                out.push(pieces.skel[i]);
                proof {
                    assert(piece_raw(pieces@[i as int]) == seq![pieces.skel@[i as int]]);
                    assert(out@ =~= before + piece_raw(pieces@[i as int]));
                }
            },
        }
        proof {
            assert(out@ + raw_span(pieces@, i as int + 1, end as int) =~= before + rest);
        }
        i += 1;
    }
    proof {
        assert(out@ + Seq::<char>::empty() =~= out@);
    }
}

fn append_piece_escaped(out: &mut Vec<char>, pieces: &Pieces, i: usize)
    requires
        pieces.wf(),
        i < pieces.skel.len(),
    ensures
        final(out)@ == old(out)@ + piece_escaped(pieces@[i as int]),
{
    match &pieces.code[i] {
        Some(_) => {
            append_raw(out, pieces, i, i + 1);
            proof {
                assert(raw_span(pieces@, i as int + 1, i as int + 1) =~= Seq::<char>::empty());
                assert(raw_span(pieces@, i as int, i as int + 1) =~= piece_escaped(
                    pieces@[i as int],
                ));
            }
        },
        None => {
            push_escaped(out, pieces.skel[i]);
        },
    }
}

fn append_escaped(out: &mut Vec<char>, pieces: &Pieces, from: usize, end: usize)
    requires
        pieces.wf(),
        from <= end <= pieces.skel.len(),
    ensures
        final(out)@ == old(out)@ + escaped_span(pieces@, from as int, end as int),
{
    let mut i = from;
    proof {
        pieces.skeleton_is_skel();
        assert(out@ + escaped_span(pieces@, from as int, end as int) =~= old(out)@ + escaped_span(
            pieces@,
            from as int,
            end as int,
        ));
    }
    while i < end
        invariant
            pieces.wf(),
            skeleton(pieces@) == pieces.skel@,
            from <= i <= end <= pieces.skel.len(),
            out@ + escaped_span(pieces@, i as int, end as int) == old(out)@ + escaped_span(
                pieces@,
                from as int,
                end as int,
            ),
        decreases end - i,
    {
        let ghost before = out@;
        let ghost rest = escaped_span(pieces@, i as int, end as int);
        match find_entity_end(&pieces.skel, i, end) {
            Some(e) => {
                append_raw(out, pieces, i, e);
                proof {
                    assert(out@ + escaped_span(pieces@, e as int, end as int) =~= before + rest);
                }
                i = e;
            },
            None => {
                append_piece_escaped(out, pieces, i);
                proof {
                    assert(out@ + escaped_span(pieces@, i as int + 1, end as int) =~= before
                        + rest);
                }
                i += 1;
            },
        }
    }
    proof {
        assert(out@ + Seq::<char>::empty() =~= out@);
    }
}

/// The later passes: the pieces written out.
pub fn render_pieces(pieces: &Pieces, closing: bool) -> (out: Vec<char>)
    requires
        pieces.wf(),
    ensures
        out@ == render(pieces@, closing, 0),
{
    let mut out: Vec<char> = Vec::new();
    let len = pieces.skel.len();
    let mut i: usize = 0;
    proof {
        pieces.skeleton_is_skel();
        assert(out@ + render(pieces@, closing, 0) =~= render(pieces@, closing, 0));
    }
    while i < len
        invariant
            pieces.wf(),
            skeleton(pieces@) == pieces.skel@,
            len == pieces.skel.len(),
            i <= len,
            out@ + render(pieces@, closing, i as int) == render(pieces@, closing, 0),
        decreases len - i,
    {
        let ghost before = out@;
        let ghost rest = render(pieces@, closing, i as int);
        match find_tag_end(&pieces.skel, i) {
            Some(j) => {
                let code_tag = is_code_open_at(&pieces.skel, i) || is_code_close_stem_at(
                    &pieces.skel,
                    i,
                );
                if closing || !code_tag {
                    append_raw(&mut out, pieces, i, j + 1);
                } else {
                    append_escaped(&mut out, pieces, i, j + 1);
                }
                proof {
                    assert(out@ + render(pieces@, closing, j as int + 1) =~= before + rest);
                }
                i = j + 1;
            },
            None => match find_entity_end(&pieces.skel, i, len) {
                Some(e) => {
                    append_raw(&mut out, pieces, i, e);
                    proof {
                        assert(out@ + render(pieces@, closing, e as int) =~= before + rest);
                    }
                    i = e;
                },
                None => {
                    append_piece_escaped(&mut out, pieces, i);
                    proof {
                        assert(out@ + render(pieces@, closing, i as int + 1) =~= before + rest);
                    }
                    i += 1;
                },
            },
        }
    }
    proof {
        assert(out@ + Seq::<char>::empty() =~= out@);
    }
    out
}

} // verus!
