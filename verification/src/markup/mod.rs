//! The markup sanitiser: arbitrary text in, text that is safe for a renderer of a small
//! HTML-like format out.
//!
//! The grammar is written as recursive functions on a sequence of characters, which walk
//! the text from left to right. Where such a function tests that a position it was given
//! lies ahead of the one it stands at, the test only bounds the recursion: the positions
//! that the recognisers give always lie ahead.
use vstd::prelude::*;
use crate::markup::code::{extract, extract_code, skeleton};
use crate::markup::render::{render, render_pieces};
use crate::markup::scan::{find_code_close, first_code_close};
use crate::text::{chars_of, string_of};

pub mod classes;
pub mod code;
pub mod laws;
pub mod render;
pub mod scan;

verus! {

/// What the sanitiser makes of `input`. Code blocks are set aside first, with their content
/// escaped; then the rest is written out with its tags and entities kept and everything else
/// escaped. Tags that begin like a code tag count as tags only where a closing code tag is
/// left in the text once the code blocks are set aside.
pub open spec fn sanitized(input: Seq<char>) -> Seq<char> {
    let pieces = extract_code(input, 0);
    render(pieces, first_code_close(skeleton(pieces), 0) is Some, 0)
}

/// Makes `input` safe for the renderer. Total: text that is not well-formed markup comes out
/// escaped.
pub fn escape_telegram_code_entities(input: &str) -> (out: String)
    ensures
        out@ == sanitized(input@),
{
    let chars = chars_of(input);
    let pieces = extract(&chars);
    proof {
        pieces.skeleton_is_skel();
    }
    let closing = find_code_close(&pieces.skel, 0).is_some();
    let rendered = render_pieces(&pieces, closing);
    string_of(&rendered)
}

} // verus!
