//! What a request to the text-generation service is made of, and what comes back.
use vstd::prelude::*;
use crate::text::{append_joined, joined, string_of, views_of};

verus! {

/// Binary data in the request itself, Base64-encoded.
#[derive(Debug, Clone)]
pub struct InputBlob {
    pub mime_type: String,
    pub data: String,
}

/// A file that the service already holds, or a public resource.
#[derive(Debug, Clone)]
pub struct InputFile {
    pub mime_type: Option<String>,
    pub file_uri: String,
}

/// One part of a request's content.
#[derive(Debug, Clone)]
pub enum InputPart {
    Text(String),
    InlineData(InputBlob),
    FileData(InputFile),
}

/// One piece of a reply: its text, if it has one, and whether the service marked it as a
/// thought.
#[derive(Debug)]
pub struct ResponsePart {
    pub text: Option<String>,
    pub thought: bool,
}

/// The content of a candidate.
#[derive(Debug)]
pub struct ResponseContent {
    pub parts: Option<Vec<ResponsePart>>,
    pub mime_type: Option<String>,
}

/// One of the completions that the service offers.
#[derive(Debug)]
pub struct Candidate {
    pub index: Option<u32>,
    pub content: Option<ResponseContent>,
}

/// A whole reply.
#[derive(Debug)]
pub struct GenerateContentResponse {
    pub candidates: Option<Vec<Candidate>>,
}

/// The parts of a candidate; none where it has no content or its content has no parts.
pub open spec fn parts_of(candidate: Candidate) -> Seq<ResponsePart> {
    match candidate.content {
        Some(content) => match content.parts {
            Some(parts) => parts@,
            None => Seq::empty(),
        },
        None => Seq::empty(),
    }
}

/// The candidates of a reply; none where it has no list of them.
pub open spec fn candidates_of(response: GenerateContentResponse) -> Seq<Candidate> {
    match response.candidates {
        Some(candidates) => candidates@,
        None => Seq::empty(),
    }
}

/// The texts of the first `n` parts, in order.
pub open spec fn part_texts(parts: Seq<ResponsePart>, n: int) -> Seq<Seq<char>>
    decreases n,
{
    if n <= 0 || n > parts.len() {
        Seq::empty()
    } else {
        match parts[n - 1].text {
            Some(text) => part_texts(parts, n - 1).push(text@),
            None => part_texts(parts, n - 1),
        }
    }
}

/// The texts of the first `n` candidates, in order.
pub open spec fn candidate_texts(candidates: Seq<Candidate>, n: int) -> Seq<Seq<char>>
    decreases n,
{
    if n <= 0 || n > candidates.len() {
        Seq::empty()
    } else {
        candidate_texts(candidates, n - 1) + part_texts(
            parts_of(candidates[n - 1]),
            parts_of(candidates[n - 1]).len() as int,
        )
    }
}

/// The text of the first part of the first candidate.
pub open spec fn first_text(response: GenerateContentResponse) -> Option<Seq<char>> {
    let candidates = candidates_of(response);
    if candidates.len() > 0 && parts_of(candidates[0]).len() > 0 {
        match parts_of(candidates[0])[0].text {
            Some(text) => Some(text@),
            None => None,
        }
    } else {
        None
    }
}

/// `serde_json::Value`, a JSON document in memory. Nothing is said of what it holds.
#[verifier::external_type_specification]
#[verifier::external_body]
pub struct ExJsonValue(serde_json::Value);

/// Whether `text` is a JSON document, as `serde_json` reads it.
pub uninterp spec fn json_parses(text: Seq<char>) -> bool;

/// Calls `serde_json::from_str` for a `serde_json::Value`.
/// Believed, not proved: a value comes back exactly where the crate's parser takes the text
/// as one JSON document.
#[verifier::external_body]
fn parse_json(text: &str) -> (value: Option<serde_json::Value>)
    ensures
        value is Some <==> json_parses(text@),
{
    match serde_json::from_str::<serde_json::Value>(text) {
        Ok(value) => Some(value),
        Err(_) => None,
    }
}

/// The parts of a candidate, as a slice.
pub fn candidate_parts(candidate: &Candidate) -> (parts: &[ResponsePart])
    ensures
        parts@ == parts_of(*candidate),
{
    match &candidate.content {
        Some(content) => match &content.parts {
            Some(parts) => parts.as_slice(),
            None => &[],
        },
        None => &[],
    }
}

/// The candidates of a reply, as a slice.
pub fn response_candidates(response: &GenerateContentResponse) -> (candidates: &[Candidate])
    ensures
        candidates@ == candidates_of(*response),
{
    match &response.candidates {
        Some(candidates) => candidates.as_slice(),
        None => &[],
    }
}

impl GenerateContentResponse {
    /// All the texts of the reply.
    pub open spec fn texts(&self) -> Seq<Seq<char>> {
        candidate_texts(candidates_of(*self), candidates_of(*self).len() as int)
    }

    fn collect_texts(&self) -> (out: Vec<String>)
        ensures
            views_of(out@) == self.texts(),
    {
        let mut out: Vec<String> = Vec::new();
        let candidates = response_candidates(self);
        let mut c: usize = 0;
        proof {
            assert(views_of(out@) =~= candidate_texts(candidates@, 0));
        }
        while c < candidates.len()
            invariant
                c <= candidates.len(),
                candidates@ == candidates_of(*self),
                views_of(out@) == candidate_texts(candidates@, c as int),
            decreases candidates.len() - c,
        {
            let parts = candidate_parts(&candidates[c]);
            let ghost before = views_of(out@);
            let mut p: usize = 0;
            proof {
                assert(views_of(out@) =~= before + part_texts(parts@, 0));
            }
            while p < parts.len()
                invariant
                    p <= parts.len(),
                    views_of(out@) == before + part_texts(parts@, p as int),
                decreases parts.len() - p,
            {
                match &parts[p].text {
                    Some(text) => {
                        let ghost prior = views_of(out@);
                        out.push(text.clone());
                        proof {
                            assert(views_of(out@) =~= prior.push(text@));
                            assert(views_of(out@) =~= before + part_texts(parts@, p as int + 1));
                        }
                    },
                    None => {},
                }
                p += 1;
            }
            c += 1;
        }
        out
    }

    /// The texts of all parts of all candidates, in order, with an empty line between each
    /// two.
    pub fn get_all_text(&self) -> (all: String)
        ensures
            all@ == joined(self.texts(), "\n\n"@, self.texts().len() as int),
    {
        let texts = self.collect_texts();
        let mut out: Vec<char> = Vec::new();
        append_joined(&mut out, &texts, "\n\n");
        proof {
            assert(out@ =~= joined(self.texts(), "\n\n"@, self.texts().len() as int));
        }
        string_of(&out)
    }

    /// The text of the first part of the first candidate, if there is one.
    pub fn first_candidate_text(&self) -> (text: Option<&String>)
        ensures
            match text {
                Some(t) => first_text(*self) == Some(t@),
                None => first_text(*self) is None,
            },
    {
        let candidates = response_candidates(self);
        if candidates.len() == 0 {
            return None;
        }
        let parts = candidate_parts(&candidates[0]);
        if parts.len() == 0 {
            return None;
        }
        match &parts[0].text {
            Some(text) => Some(text),
            None => None,
        }
    }

    /// The text of the first part of the first candidate, read as JSON: a value where there
    /// is such a text and it is a JSON document.
    pub fn parse_first_candidate_json(&self) -> (value: Option<serde_json::Value>)
        ensures
            value is Some <==> (first_text(*self) matches Some(text) && json_parses(text)),
    {
        match self.first_candidate_text() {
            Some(text) => parse_json(text.as_str()),
            None => None,
        }
    }
}

} // verus!
