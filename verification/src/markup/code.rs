//! Code blocks: the first pass of the sanitiser finds them, escapes what they hold and sets
//! each aside as one piece, which later passes step over.
use vstd::prelude::*;
use crate::markup::classes::{is_word_char, word_char};
use crate::markup::scan::{
    code_open_at, entity_end, find_code_close, find_entity_end, find_tag_close, first_code_close,
    is_code_open_at, tag_close,
};

verus! {

/// What one character of plain text becomes: the three characters that the renderer reads
/// as markup are written as entities.
pub open spec fn escape_char(c: char) -> Seq<char> {
    if c == '&' {
        seq!['&', 'a', 'm', 'p', ';']
    } else if c == '<' {
        seq!['&', 'l', 't', ';']
    } else if c == '>' {
        seq!['&', 'g', 't', ';']
    } else {
        seq![c]
    }
}

/// The first `n` characters of `s` with `&`, `<` and `>` written as entities.
pub open spec fn escaped_plain(s: Seq<char>, n: int) -> Seq<char>
    decreases n,
{
    if n <= 0 || n > s.len() {
        Seq::empty()
    } else {
        escaped_plain(s, n - 1) + escape_char(s[n - 1])
    }
}

/// The characters of `s` from `i` to `end`, escaped, but for the entities among them, which
/// stay as they are.
pub open spec fn escape_text(s: Seq<char>, i: int, end: int) -> Seq<char>
    decreases end - i,
{
    if i < 0 || i >= end || end > s.len() {
        Seq::empty()
    } else {
        match entity_end(s, i, end) {
            Some(e) => if i < e <= end {
                s.subrange(i, e) + escape_text(s, e, end)
            } else {
                Seq::empty()
            },
            None => escape_char(s[i]) + escape_text(s, i + 1, end),
        }
    }
}

/// The code block that starts at `i`, given by the index of the `>` of its opening tag and
/// the index of its closing tag: `<code`, not followed by a word character, then attributes
/// and `>`, then the nearest `</code>`.
pub open spec fn code_block_at(s: Seq<char>, i: int) -> Option<(int, int)> {
    if code_open_at(s, i) && i + 5 < s.len() && !is_word_char(s[i + 5]) {
        match tag_close(s, i + 5) {
            Some(j) => match first_code_close(s, j + 1) {
                Some(k) => Some((j, k)),
                None => None,
            },
            None => None,
        }
    } else {
        None
    }
}

/// A code block as it is written out: the tag's name in lower case, its attributes as they
/// stood, and the content escaped.
pub open spec fn render_code(s: Seq<char>, i: int, j: int, k: int) -> Seq<char> {
    seq!['<', 'c', 'o', 'd', 'e'] + s.subrange(i + 5, j) + seq!['>'] + escape_text(s, j + 1, k)
        + seq!['<', '/', 'c', 'o', 'd', 'e', '>']
}

/// One unit of the text after the first pass.
pub enum Piece {
    /// A character outside every code block.
    Text(char),
    /// A code block, as it will be written out.
    Code(Seq<char>),
}

/// The character that stands for a code block wherever later passes read the text.
pub open spec fn block_mark() -> char {
    '\u{7}'
}

/// The text from `i` on as pieces: code blocks are taken from left to right, none inside
/// another.
pub open spec fn extract_code(s: Seq<char>, i: int) -> Seq<Piece>
    decreases s.len() - i,
{
    if i < 0 || i >= s.len() {
        Seq::empty()
    } else {
        match code_block_at(s, i) {
            Some((j, k)) => if i < k + 7 <= s.len() {
                seq![Piece::Code(render_code(s, i, j, k))] + extract_code(s, k + 7)
            } else {
                Seq::empty()
            },
            None => seq![Piece::Text(s[i])] + extract_code(s, i + 1),
        }
    }
}

/// The pieces as the tag and entity recognisers read them: a code block counts as one
/// character that belongs to no markup.
pub open spec fn skeleton(p: Seq<Piece>) -> Seq<char> {
    Seq::new(
        p.len(),
        |i: int|
            match p[i] {
                Piece::Text(c) => c,
                Piece::Code(_) => block_mark(),
            },
    )
}

/// The pieces in memory: the skeleton, and beside each of its characters the code block for
/// which it stands, if it stands for one.
pub struct Pieces {
    pub skel: Vec<char>,
    pub code: Vec<Option<Vec<char>>>,
}

impl Pieces {
    /// Each character has its place for a block, and a character that stands for a block is
    /// the mark.
    pub open spec fn wf(&self) -> bool {
        &&& self.skel@.len() == self.code@.len()
        &&& forall|i: int|
            0 <= i < self.code@.len() && self.code@[i] is Some ==> self.skel@[i] == block_mark()
    }

    /// The piece at `i`.
    pub open spec fn piece(&self, i: int) -> Piece {
        match self.code@[i] {
            Some(block) => Piece::Code(block@),
            None => Piece::Text(self.skel@[i]),
        }
    }

    /// The characters kept in memory are the skeleton of the pieces.
    pub proof fn skeleton_is_skel(&self)
        requires
            self.wf(),
        ensures
            skeleton(self@) == self.skel@,
    {
        assert(skeleton(self@) =~= self.skel@);
    }
}

impl View for Pieces {
    type V = Seq<Piece>;

    open spec fn view(&self) -> Seq<Piece> {
        Seq::new(self.skel@.len(), |i: int| self.piece(i))
    }
}

pub(crate) fn push_escaped(out: &mut Vec<char>, c: char)
    ensures
        final(out)@ == old(out)@ + escape_char(c),
{
    if c == '&' {
        out.push('&');
        out.push('a');
        out.push('m');
        out.push('p');
        out.push(';');
    } else if c == '<' {
        out.push('&');
        out.push('l');
        out.push('t');
        out.push(';');
    } else if c == '>' {
        out.push('&');
        out.push('g');
        out.push('t');
        out.push(';');
    } else {
        out.push(c);
    }
    proof {
        assert(out@ =~= old(out)@ + escape_char(c));
    }
}

pub(crate) fn append_range(out: &mut Vec<char>, s: &Vec<char>, from: usize, to: usize)
    requires
        from <= to <= s.len(),
    ensures
        final(out)@ == old(out)@ + s@.subrange(from as int, to as int),
{
    let mut i = from;
    while i < to
        invariant
            from <= i <= to <= s.len(),
            out@ == old(out)@ + s@.subrange(from as int, i as int),
        decreases to - i,
    {
        out.push(s[i]);
        proof {
            assert(s@.subrange(from as int, i as int).push(s@[i as int]) =~= s@.subrange(
                from as int,
                i as int + 1,
            ));
            assert(out@ =~= old(out)@ + s@.subrange(from as int, i as int + 1));
        }
        i += 1;
    }
}

pub(crate) fn append_escaped_text(out: &mut Vec<char>, s: &Vec<char>, from: usize, end: usize)
    requires
        from <= end <= s.len(),
    ensures
        final(out)@ == old(out)@ + escape_text(s@, from as int, end as int),
{
    let mut i = from;
    proof {
        assert(out@ + escape_text(s@, from as int, end as int) =~= old(out)@ + escape_text(
            s@,
            from as int,
            end as int,
        ));
    }
    while i < end
        invariant
            from <= i <= end <= s.len(),
            out@ + escape_text(s@, i as int, end as int) == old(out)@ + escape_text(
                s@,
                from as int,
                end as int,
            ),
        decreases end - i,
    {
        let ghost before = out@;
        let ghost rest = escape_text(s@, i as int, end as int);
        match find_entity_end(s, i, end) {
            Some(e) => {
                append_range(out, s, i, e);
                proof {
                    assert(out@ + escape_text(s@, e as int, end as int) =~= before + rest);
                }
                i = e;
            },
            None => {
                push_escaped(out, s[i]);
                proof {
                    assert(out@ + escape_text(s@, i as int + 1, end as int) =~= before + rest);
                }
                i += 1;
            },
        }
    }
    proof {
        assert(out@ + Seq::<char>::empty() =~= out@);
    }
}

/// The code block at `i`, if one starts there.
pub(crate) fn find_code_block(s: &Vec<char>, i: usize) -> (found: Option<(usize, usize)>)
    ensures
        match found {
            Some((j, k)) => code_block_at(s@, i as int) == Some((j as int, k as int)) && i + 5 <= j
                < k && k + 7 <= s.len(),
            None => code_block_at(s@, i as int) is None,
        },
{
    if is_code_open_at(s, i) && s.len() - i > 5 && !word_char(s[i + 5]) {
        match find_tag_close(s, i + 5) {
            Some(j) => match find_code_close(s, j + 1) {
                Some(k) => Some((j, k)),
                None => None,
            },
            None => None,
        }
    } else {
        None
    }
}

fn rendered_code(s: &Vec<char>, i: usize, j: usize, k: usize) -> (block: Vec<char>)
    requires
        i + 5 <= j < k <= s.len(),
    ensures
        block@ == render_code(s@, i as int, j as int, k as int),
{
    let mut block: Vec<char> = Vec::new();
    block.push('<');
    block.push('c');
    block.push('o');
    block.push('d');
    block.push('e');
    assert(block@ =~= seq!['<', 'c', 'o', 'd', 'e']);
    append_range(&mut block, s, i + 5, j);
    block.push('>');
    append_escaped_text(&mut block, s, j + 1, k);
    let ghost body = block@;
    block.push('<');
    block.push('/');
    block.push('c');
    block.push('o');
    block.push('d');
    block.push('e');
    block.push('>');
    assert(block@ =~= body + seq!['<', '/', 'c', 'o', 'd', 'e', '>']);
    block
}

/// The first pass: the text as pieces.
pub fn extract(s: &Vec<char>) -> (pieces: Pieces)
    ensures
        pieces.wf(),
        pieces@ == extract_code(s@, 0),
{
    let mut pieces = Pieces { skel: Vec::new(), code: Vec::new() };
    let mut i: usize = 0;
    proof {
        assert(pieces@ + extract_code(s@, 0) =~= extract_code(s@, 0));
    }
    while i < s.len()
        invariant
            i <= s.len(),
            pieces.wf(),
            pieces@ + extract_code(s@, i as int) == extract_code(s@, 0),
        decreases s.len() - i,
    {
        let ghost before = pieces@;
        let ghost rest = extract_code(s@, i as int);
        match find_code_block(s, i) {
            Some((j, k)) => {
                let block = rendered_code(s, i, j, k);
                pieces.skel.push('\u{7}');
                pieces.code.push(Some(block));
                proof {
                    assert(pieces@ =~= before.push(
                        Piece::Code(render_code(s@, i as int, j as int, k as int)),
                    ));
                    assert(pieces@ + extract_code(s@, k as int + 7) =~= before + rest);
                }
                i = k + 7;
            },
            None => {
                let ghost prior = pieces;
                pieces.skel.push(s[i]);
                pieces.code.push(None);
                proof {
                    assert forall|n: int| 0 <= n < before.len() implies pieces@[n] == before[n] by {
                        assert(pieces.piece(n) == prior.piece(n));
                    }
                    assert(pieces@[before.len() as int] == Piece::Text(s@[i as int]));
                    assert(pieces@ =~= before.push(Piece::Text(s@[i as int])));
                    assert(pieces@ + extract_code(s@, i as int + 1) =~= before + rest);
                }
                i += 1;
            },
        }
    }
    proof {
        assert(pieces@ + Seq::<Piece>::empty() =~= pieces@);
    }
    pieces
}

} // verus!
