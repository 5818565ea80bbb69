//! A fetched page, reduced to the few elements that a model needs to read it.
use vstd::prelude::*;
use crate::markup::classes::{ascii_lower, lower};
use crate::markup::code::escaped_plain;
use crate::text::{
    append_str, chars_of, same_text, string_of, trim_bounds, trimmed, trimmed_chars,
};

verus! {

/// A node of a parsed page.
pub enum HtmlNode {
    /// An element, with its name and what it holds.
    Element { name: String, children: Vec<HtmlNode> },
    /// A run of text.
    Text(String),
    /// Any other node, with what it holds.
    Other(Vec<HtmlNode>),
}

/// `s` with its ASCII capitals in lower case.
pub open spec fn ascii_lowered(s: Seq<char>) -> Seq<char> {
    Seq::new(s.len(), |i: int| ascii_lower(s[i]))
}

/// Calls `html_escape::encode_text`.
/// Believed, not proved: the result is the text with each `&`, `<` and `>` replaced by
/// `&amp;`, `&lt;` and `&gt;`, and nothing else changed.
#[verifier::external_body]
fn encode_text(text: &str) -> (encoded: String)
    ensures
        encoded@ == escaped_plain(text@, text@.len() as int),
{
    html_escape::encode_text(text).into_owned()
}

/// The elements whose content is dropped.
pub open spec fn is_dropped(tag: Seq<char>) -> bool {
    tag == "script"@ || tag == "style"@
}

/// The elements that are kept as tags.
pub open spec fn is_kept(tag: Seq<char>) -> bool {
    tag == "p"@ || tag == "h1"@ || tag == "h2"@ || tag == "h3"@ || tag == "h4"@ || tag == "h5"@
        || tag == "h6"@ || tag == "ul"@ || tag == "ol"@ || tag == "li"@ || tag == "strong"@ || tag
        == "b"@ || tag == "em"@ || tag == "i"@ || tag == "br"@ || tag == "blockquote"@ || tag
        == "pre"@ || tag == "code"@
}

/// What is kept of a node: of a script or a style nothing; of a kept element its tags,
/// without attributes, around what is kept of its content; of any other node what is kept
/// of its content; of a text that is not blank the text without the white space at its
/// ends, escaped, and a space.
pub open spec fn simplified(node: HtmlNode) -> Seq<char>
    decreases node,
{
    match node {
        HtmlNode::Element { name, children } => {
            let tag = ascii_lowered(name@);
            if is_dropped(tag) {
                Seq::empty()
            } else if is_kept(tag) {
                seq!['<'] + tag + seq!['>'] + simplified_all(children, children@.len() as int) + (
                if tag == "br"@ {
                    Seq::empty()
                } else {
                    seq!['<', '/'] + tag + seq!['>']
                })
            } else {
                simplified_all(children, children@.len() as int)
            }
        },
        HtmlNode::Text(text) => if trimmed(text@).len() > 0 {
            escaped_plain(trimmed(text@), trimmed(text@).len() as int) + seq![' ']
        } else {
            Seq::empty()
        },
        HtmlNode::Other(children) => simplified_all(children, children@.len() as int),
    }
}

/// What is kept of the first `n` of `nodes`.
pub open spec fn simplified_all(nodes: Vec<HtmlNode>, n: int) -> Seq<char>
    decreases nodes, n,
{
    if n <= 0 || n > nodes@.len() {
        Seq::empty()
    } else {
        simplified_all(nodes, n - 1) + simplified(nodes@[n - 1])
    }
}

/// `s` with its ASCII capitals in lower case.
pub fn ascii_lowercase(s: &str) -> (lowered: String)
    ensures
        lowered@ == ascii_lowered(s@),
{
    let chars = chars_of(s);
    let mut out: Vec<char> = Vec::new();
    let mut i: usize = 0;
    while i < chars.len()
        invariant
            i <= chars.len(),
            chars@ == s@,
            out@ == ascii_lowered(s@).subrange(0, i as int),
        decreases chars.len() - i,
    {
        out.push(lower(chars[i]));
        proof {
            assert(out@ =~= ascii_lowered(s@).subrange(0, i as int + 1));
        }
        i += 1;
    }
    proof {
        assert(out@ =~= ascii_lowered(s@));
    }
    string_of(&out)
}

fn dropped(tag: &str) -> (r: bool)
    ensures
        r == is_dropped(tag@),
{
    same_text(tag, "script") || same_text(tag, "style")
}

fn kept(tag: &str) -> (r: bool)
    ensures
        r == is_kept(tag@),
{
    same_text(tag, "p") || same_text(tag, "h1") || same_text(tag, "h2") || same_text(tag, "h3")
        || same_text(tag, "h4") || same_text(tag, "h5") || same_text(tag, "h6") || same_text(
        tag,
        "ul",
    ) || same_text(tag, "ol") || same_text(tag, "li") || same_text(tag, "strong") || same_text(
        tag,
        "b",
    ) || same_text(tag, "em") || same_text(tag, "i") || same_text(tag, "br") || same_text(
        tag,
        "blockquote",
    ) || same_text(tag, "pre") || same_text(tag, "code")
}

fn walk(node: &HtmlNode, out: &mut Vec<char>)
    ensures
        final(out)@ == old(out)@ + simplified(*node),
    decreases node,
{
    match node {
        HtmlNode::Element { name, children } => {
            let tag = ascii_lowercase(name.as_str());
            if dropped(tag.as_str()) {
                proof {
                    assert(out@ =~= old(out)@ + simplified(*node));
                }
            } else if kept(tag.as_str()) {
                out.push('<');
                append_str(out, tag.as_str());
                out.push('>');
                walk_all(children, out);
                if !same_text(tag.as_str(), "br") {
                    out.push('<');
                    out.push('/');
                    append_str(out, tag.as_str());
                    out.push('>');
                }
                proof {
                    assert(out@ =~= old(out)@ + simplified(*node));
                }
            } else {
                walk_all(children, out);
            }
        },
        HtmlNode::Text(text) => {
            let inner = trimmed_chars(text.as_str());
            if inner.len() > 0 {
                let plain = string_of(&inner);
                let encoded = encode_text(plain.as_str());
                append_str(out, encoded.as_str());
                out.push(' ');
                proof {
                    assert(out@ =~= old(out)@ + simplified(*node));
                }
            } else {
                proof {
                    assert(out@ =~= old(out)@ + simplified(*node));
                }
            }
        },
        HtmlNode::Other(children) => {
            walk_all(children, out);
        },
    }
}

fn walk_all(nodes: &Vec<HtmlNode>, out: &mut Vec<char>)
    ensures
        final(out)@ == old(out)@ + simplified_all(*nodes, nodes@.len() as int),
    decreases nodes,
{
    broadcast use vstd::std_specs::vec::axiom_vec_index_decreases;

    let mut n: usize = 0;
    proof {
        assert(out@ =~= old(out)@ + simplified_all(*nodes, 0));
    }
    while n < nodes.len()
        invariant
            n <= nodes.len(),
            out@ == old(out)@ + simplified_all(*nodes, n as int),
        decreases nodes.len() - n,
    {
        let ghost before = out@;
        walk(&nodes[n], out);
        proof {
            assert(out@ =~= old(out)@ + simplified_all(*nodes, n as int + 1));
        }
        n += 1;
    }
}

/// The page as it is handed on: what is kept of the node, without white space at its ends,
/// as the content of a `body` element.
pub open spec fn simplified_page(root: HtmlNode) -> Seq<char> {
    "<body>"@ + trimmed(simplified(root)) + "</body>"@
}

/// Reduces a parsed page, or a part of one, to its simplified body.
pub fn simplify_body(root: &HtmlNode) -> (page: String)
    ensures
        page@ == simplified_page(*root),
{
    let mut inner: Vec<char> = Vec::new();
    walk(root, &mut inner);
    proof {
        assert(inner@ =~= simplified(*root));
    }
    let (lo, hi) = trim_bounds(&inner);
    let mut out: Vec<char> = Vec::new();
    append_str(&mut out, "<body>");
    let mut i = lo;
    while i < hi
        invariant
            lo <= i <= hi <= inner.len(),
            out@ == "<body>"@ + inner@.subrange(lo as int, i as int),
        decreases hi - i,
    {
        out.push(inner[i]);
        proof {
            assert(out@ =~= "<body>"@ + inner@.subrange(lo as int, i as int + 1));
        }
        i += 1;
    }
    append_str(&mut out, "</body>");
    string_of(&out)
}

} // verus!
