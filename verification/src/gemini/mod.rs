//! The client of the text-generation service: the request as it is assembled and the reply
//! as it is read. Sending is not done here.
use vstd::prelude::*;
use vstd::string::StringExecFns;
use crate::gemini::types::{
    candidate_parts, candidates_of, parts_of, response_candidates, Candidate, GenerateContentResponse,
    InputBlob, InputFile, InputPart, ResponsePart,
};
use crate::text::{append_decimal, append_joined, append_str, decimal, joined, string_of, views_of};

pub mod types;

verus! {

/// Client handle for the text-generation service: it carries the API key.
pub struct Gemini {
    pub api_key: String,
}

/// The model that a request names unless another is set.
pub open spec fn default_model() -> Seq<char> {
    "gemini-2.5-flash"@
}

/// A text that may be absent, as mathematics.
pub open spec fn text_of(field: Option<String>) -> Option<Seq<char>> {
    match field {
        Some(s) => Some(s@),
        None => None,
    }
}

/// One part of a request, as mathematics.
#[allow(inconsistent_fields)]
pub enum PartModel {
    Text(Seq<char>),
    InlineData { mime_type: Seq<char>, data: Seq<char> },
    FileData { mime_type: Option<Seq<char>>, file_uri: Seq<char> },
}

/// What `part` stands for.
pub open spec fn part_model(part: InputPart) -> PartModel {
    match part {
        InputPart::Text(text) => PartModel::Text(text@),
        InputPart::InlineData(blob) => PartModel::InlineData {
            mime_type: blob.mime_type@,
            data: blob.data@,
        },
        InputPart::FileData(file) => PartModel::FileData {
            mime_type: text_of(file.mime_type),
            file_uri: file.file_uri@,
        },
    }
}

/// A request, as mathematics.
pub struct RequestModel {
    pub api_key: Seq<char>,
    pub model: Seq<char>,
    pub parts: Seq<PartModel>,
    pub top_k: Option<u32>,
    pub max_output_tokens: Option<u32>,
    pub candidate_count: Option<u32>,
    pub system_instruction: Option<Seq<char>>,
    pub thinking_budget: Option<i32>,
    pub include_thoughts: Option<bool>,
    pub response_mime_type: Option<Seq<char>>,
}

/// A request as it is assembled, one setting at a time. The two sampling settings that are
/// fractions are kept by whoever sends the request.
pub struct GeminiRequestBuilder {
    pub api_key: String,
    pub model: String,
    pub parts: Vec<InputPart>,
    pub top_k: Option<u32>,
    pub max_output_tokens: Option<u32>,
    pub candidate_count: Option<u32>,
    pub system_instruction: Option<String>,
    pub thinking_budget: Option<i32>,
    pub include_thoughts: Option<bool>,
    pub response_mime_type: Option<String>,
}

/// The options that steer the model's thinking.
#[derive(Clone, Copy, Debug, PartialEq, Eq, Structural)]
pub struct ThinkingConfig {
    pub thinking_budget: Option<i32>,
    pub include_thoughts: Option<bool>,
}

impl View for GeminiRequestBuilder {
    type V = RequestModel;

    open spec fn view(&self) -> RequestModel {
        RequestModel {
            api_key: self.api_key@,
            model: self.model@,
            parts: Seq::new(self.parts@.len(), |i: int| part_model(self.parts@[i])),
            top_k: self.top_k,
            max_output_tokens: self.max_output_tokens,
            candidate_count: self.candidate_count,
            system_instruction: text_of(self.system_instruction),
            thinking_budget: self.thinking_budget,
            include_thoughts: self.include_thoughts,
            response_mime_type: text_of(self.response_mime_type),
        }
    }
}

impl RequestModel {
    /// The address to which the request goes.
    pub open spec fn endpoint(self) -> Seq<char> {
        "https://generativelanguage.googleapis.com/v1beta/models/"@ + self.model
            + ":generateContent?key="@ + self.api_key
    }

    /// The request with one more part.
    pub open spec fn with_part(self, part: PartModel) -> RequestModel {
        RequestModel { parts: self.parts.push(part), ..self }
    }
}

impl Gemini {
    /// A client that authenticates with `api_key`.
    pub fn new(api_key: String) -> (client: Self)
        ensures
            client.api_key == api_key,
    {
        Gemini { api_key }
    }

    /// A request with this client's key, the default model, no content and no settings.
    pub fn request(&self) -> (builder: GeminiRequestBuilder)
        ensures
            builder@ == (RequestModel {
                api_key: self.api_key@,
                model: default_model(),
                parts: Seq::empty(),
                top_k: None,
                max_output_tokens: None,
                candidate_count: None,
                system_instruction: None,
                thinking_budget: None,
                include_thoughts: None,
                response_mime_type: None,
            }),
    {
        let builder = GeminiRequestBuilder {
            api_key: self.api_key.clone(),
            model: String::from_str("gemini-2.5-flash"),
            parts: Vec::new(),
            top_k: None,
            max_output_tokens: None,
            candidate_count: None,
            system_instruction: None,
            thinking_budget: None,
            include_thoughts: None,
            response_mime_type: None,
        };
        proof {
            assert(builder@.parts =~= Seq::empty());
        }
        builder
    }
}

/// The message for a request without content.
pub open spec fn no_content_message() -> Seq<char> {
    "No content parts provided. Use add_text, add_base64_media, or add_file_uri before sending."@
}

impl GeminiRequestBuilder {
    fn with(self, part: InputPart) -> (builder: Self)
        ensures
            builder@ == self@.with_part(part_model(part)),
    {
        let mut builder = self;
        builder.parts.push(part);
        proof {
            assert(builder@.parts =~= self@.parts.push(part_model(part)));
        }
        builder
    }

    /// Names the model.
    pub fn set_model(self, model: &str) -> (builder: Self)
        ensures
            builder@ == (RequestModel { model: model@, ..self@ }),
    {
        let mut builder = self;
        builder.model = String::from_str(model);
        proof {
            assert(builder@.parts =~= self@.parts);
        }
        builder
    }

    /// Adds a text to the content.
    pub fn add_text(self, text: &str) -> (builder: Self)
        ensures
            builder@ == self@.with_part(PartModel::Text(text@)),
    {
        self.with(InputPart::Text(String::from_str(text)))
    }

    /// Adds binary data to the content; `base64_data` is its Base64 encoding.
    pub fn add_base64_media(self, mime_type: &str, base64_data: &str) -> (builder: Self)
        ensures
            builder@ == self@.with_part(
                PartModel::InlineData { mime_type: mime_type@, data: base64_data@ },
            ),
    {
        self.with(
            InputPart::InlineData(
                InputBlob {
                    mime_type: String::from_str(mime_type),
                    data: String::from_str(base64_data),
                },
            ),
        )
    }

    /// Adds a reference to a file to the content.
    pub fn add_file_uri(self, mime_type: &str, file_uri: &str) -> (builder: Self)
        ensures
            builder@ == self@.with_part(
                PartModel::FileData { mime_type: Some(mime_type@), file_uri: file_uri@ },
            ),
    {
        self.with(
            InputPart::FileData(
                InputFile {
                    mime_type: Some(String::from_str(mime_type)),
                    file_uri: String::from_str(file_uri),
                },
            ),
        )
    }

    /// Sets how many of the likeliest tokens are sampled from.
    pub fn set_top_k(self, k: u32) -> (builder: Self)
        ensures
            builder@ == (RequestModel { top_k: Some(k), ..self@ }),
    {
        let mut builder = self;
        builder.top_k = Some(k);
        proof {
            assert(builder@.parts =~= self@.parts);
        }
        builder
    }

    /// Sets the most tokens that the reply may have.
    pub fn set_max_output_tokens(self, n: u32) -> (builder: Self)
        ensures
            builder@ == (RequestModel { max_output_tokens: Some(n), ..self@ }),
    {
        let mut builder = self;
        builder.max_output_tokens = Some(n);
        proof {
            assert(builder@.parts =~= self@.parts);
        }
        builder
    }

    /// Sets how many candidates are asked for.
    pub fn set_candidate_count(self, n: u32) -> (builder: Self)
        ensures
            builder@ == (RequestModel { candidate_count: Some(n), ..self@ }),
    {
        let mut builder = self;
        builder.candidate_count = Some(n);
        proof {
            assert(builder@.parts =~= self@.parts);
        }
        builder
    }

    /// Sets the system instruction.
    pub fn set_system_instruction(self, inst: &str) -> (builder: Self)
        ensures
            builder@ == (RequestModel { system_instruction: Some(inst@), ..self@ }),
    {
        let mut builder = self;
        builder.system_instruction = Some(String::from_str(inst));
        proof {
            assert(builder@.parts =~= self@.parts);
        }
        builder
    }

    /// Sets how many tokens the model may spend on thinking.
    pub fn set_thinking_budget(self, budget: i32) -> (builder: Self)
        ensures
            builder@ == (RequestModel { thinking_budget: Some(budget), ..self@ }),
    {
        let mut builder = self;
        builder.thinking_budget = Some(budget);
        proof {
            assert(builder@.parts =~= self@.parts);
        }
        builder
    }

    /// Sets whether the reply is to hold the model's thoughts.
    pub fn set_include_thoughts(self, wanted: bool) -> (builder: Self)
        ensures
            builder@ == (RequestModel { include_thoughts: Some(wanted), ..self@ }),
    {
        let mut builder = self;
        builder.include_thoughts = Some(wanted);
        proof {
            assert(builder@.parts =~= self@.parts);
        }
        builder
    }

    /// Sets the media type that the reply is to have.
    pub fn set_response_mime_type(self, mime: &str) -> (builder: Self)
        ensures
            builder@ == (RequestModel { response_mime_type: Some(mime@), ..self@ }),
    {
        let mut builder = self;
        builder.response_mime_type = Some(String::from_str(mime));
        proof {
            assert(builder@.parts =~= self@.parts);
        }
        builder
    }

    /// Whether the request can be sent: it can where it has content, and the error says so
    /// where it has none.
    pub fn ready(&self) -> (outcome: Result<(), String>)
        ensures
            outcome is Ok <==> self@.parts.len() > 0,
            outcome matches Err(message) ==> message@ == no_content_message(),
    {
        if self.parts.len() == 0 {
            Err(
                String::from_str(
                    "No content parts provided. Use add_text, add_base64_media, or add_file_uri before sending.",
                ),
            )
        } else {
            Ok(())
        }
    }

    /// The thinking options, where at least one of them is set.
    pub fn thinking_config(&self) -> (config: Option<ThinkingConfig>)
        ensures
            config == (if self@.thinking_budget is Some || self@.include_thoughts is Some {
                Some(
                    ThinkingConfig {
                        thinking_budget: self@.thinking_budget,
                        include_thoughts: self@.include_thoughts,
                    },
                )
            } else {
                None
            }),
    {
        if self.thinking_budget.is_some() || self.include_thoughts.is_some() {
            Some(
                ThinkingConfig {
                    thinking_budget: self.thinking_budget,
                    include_thoughts: self.include_thoughts,
                },
            )
        } else {
            None
        }
    }

    /// The address to which the request goes.
    pub fn endpoint(&self) -> (url: String)
        ensures
            url@ == self@.endpoint(),
    {
        let mut out: Vec<char> = Vec::new();
        append_str(&mut out, "https://generativelanguage.googleapis.com/v1beta/models/");
        append_str(&mut out, self.model.as_str());
        append_str(&mut out, ":generateContent?key=");
        append_str(&mut out, self.api_key.as_str());
        proof {
            assert(out@ =~= self@.endpoint());
        }
        string_of(&out)
    }
}

/// Why a request gave no result.
pub enum SendFailure {
    /// The request could not be made; the text is the transport's error.
    Request(String),
    /// The reply's body could not be read; the text is the transport's error.
    Body(String),
    /// The reply's status is not a success.
    Status { status: u16, reason: String, content_type: String, body: String },
    /// The body is JSON, but not a reply: the parser's error, the content type, and the body
    /// printed anew.
    Mismatch { error: String, content_type: String, pretty: String },
    /// The body is no JSON at all: the two parsers' errors and the body.
    NotJson { error: String, value_error: String, body: String },
}

/// The error text for a reply whose status is not a success.
pub open spec fn http_failure_text(status: u16, reason: Seq<char>, content_type: Seq<char>, body: Seq<char>) -> Seq<char> {
    "HTTP "@ + decimal(status as nat) + " "@ + reason + "\nContent-Type: "@ + content_type
        + "\nBody:\n"@ + body
}

/// A failure in words.
pub open spec fn failure_text(failure: SendFailure) -> Seq<char> {
    match failure {
        SendFailure::Request(error) => "HTTP request error: "@ + error@,
        SendFailure::Body(error) => "Error reading response body text: "@ + error@,
        SendFailure::Status { status, reason, content_type, body } => http_failure_text(
            status,
            reason@,
            content_type@,
            body@,
        ),
        SendFailure::Mismatch { error, content_type, pretty } => "JSON deserialization mismatch: "@
            + error@ + "\nContent-Type: "@ + content_type@ + "\nJSON body (abridged):\n"@ + pretty@,
        SendFailure::NotJson { error, value_error, body } => "Failed to parse body as JSON: "@
            + error@ + "\nAlso failed to parse as serde_json::Value: "@ + value_error@
            + "\nRaw body:\n"@ + body@,
    }
}

/// The error text for a reply whose status is not a success: the status, its reason, the
/// content type and the body.
pub fn http_failure(status: u16, reason: &str, content_type: &str, body: &str) -> (message: String)
    ensures
        message@ == http_failure_text(status, reason@, content_type@, body@),
{
    let mut out: Vec<char> = Vec::new();
    append_str(&mut out, "HTTP ");
    append_decimal(&mut out, status as u64);
    append_str(&mut out, " ");
    append_str(&mut out, reason);
    append_str(&mut out, "\nContent-Type: ");
    append_str(&mut out, content_type);
    append_str(&mut out, "\nBody:\n");
    append_str(&mut out, body);
    proof {
        assert(out@ =~= http_failure_text(status, reason@, content_type@, body@));
    }
    string_of(&out)
}

impl SendFailure {
    /// The failure in words, as the caller of a request gets it.
    pub fn message(&self) -> (text: String)
        ensures
            text@ == failure_text(*self),
    {
        let mut out: Vec<char> = Vec::new();
        match self {
            SendFailure::Request(error) => {
                append_str(&mut out, "HTTP request error: ");
                append_str(&mut out, error.as_str());
            },
            SendFailure::Body(error) => {
                append_str(&mut out, "Error reading response body text: ");
                append_str(&mut out, error.as_str());
            },
            SendFailure::Status { status, reason, content_type, body } => {
                return http_failure(*status, reason.as_str(), content_type.as_str(), body.as_str());
            },
            SendFailure::Mismatch { error, content_type, pretty } => {
                append_str(&mut out, "JSON deserialization mismatch: ");
                append_str(&mut out, error.as_str());
                append_str(&mut out, "\nContent-Type: ");
                append_str(&mut out, content_type.as_str());
                append_str(&mut out, "\nJSON body (abridged):\n");
                append_str(&mut out, pretty.as_str());
            },
            SendFailure::NotJson { error, value_error, body } => {
                append_str(&mut out, "Failed to parse body as JSON: ");
                append_str(&mut out, error.as_str());
                append_str(&mut out, "\nAlso failed to parse as serde_json::Value: ");
                append_str(&mut out, value_error.as_str());
                append_str(&mut out, "\nRaw body:\n");
                append_str(&mut out, body.as_str());
            },
        }
        proof {
            assert(out@ =~= failure_text(*self));
        }
        string_of(&out)
    }
}

/// What has been read of a reply so far: the thoughts, and the answer once one was found.
pub struct Reading {
    pub thoughts: Seq<Seq<char>>,
    pub answer: Option<Seq<char>>,
}

impl Reading {
    /// Nothing read yet.
    pub open spec fn nothing() -> Reading {
        Reading { thoughts: Seq::empty(), answer: None }
    }

    /// An answer and at least one thought were found.
    pub open spec fn complete(self) -> bool {
        self.answer is Some && self.thoughts.len() > 0
    }

    /// One more part read: a thought's text joins the thoughts; the first other text is the
    /// answer; a part without text counts for nothing.
    pub open spec fn part(self, part: ResponsePart) -> Reading {
        match part.text {
            Some(text) => if part.thought {
                Reading { thoughts: self.thoughts.push(text@), ..self }
            } else if self.answer is None {
                Reading { answer: Some(text@), ..self }
            } else {
                self
            },
            None => self,
        }
    }

    /// The first `n` of `parts` read.
    pub open spec fn parts(self, parts: Seq<ResponsePart>, n: int) -> Reading
        decreases n,
    {
        if n <= 0 || n > parts.len() {
            self
        } else {
            self.parts(parts, n - 1).part(parts[n - 1])
        }
    }

    /// The first `n` of `candidates` read: reading stops after the first candidate with
    /// which an answer and a thought are there.
    pub open spec fn candidates(candidates: Seq<Candidate>, n: int) -> Reading
        decreases n,
    {
        if n <= 0 || n > candidates.len() {
            Reading::nothing()
        } else {
            let before = Reading::candidates(candidates, n - 1);
            if before.complete() {
                before
            } else {
                before.parts(parts_of(candidates[n - 1]), parts_of(candidates[n - 1]).len() as int)
            }
        }
    }

    /// The whole reply read.
    pub open spec fn of(response: GenerateContentResponse) -> Reading {
        Reading::candidates(candidates_of(response), candidates_of(response).len() as int)
    }
}

/// What a request gave.
pub struct GeminiResult {
    /// The answer.
    pub answer: String,
    /// The model's thoughts, which may be none.
    pub thoughts: Vec<String>,
    /// The reply as it came.
    pub raw: GenerateContentResponse,
}

/// The text that shows thoughts and answer together.
pub open spec fn with_thoughts(thoughts: Seq<Seq<char>>, answer: Seq<char>) -> Seq<char> {
    "Thoughts:\n"@ + joined(thoughts, "\n\n"@, thoughts.len() as int) + "\n\nAnswer:\n"@ + answer
}

impl GeminiResult {
    /// Reads a reply: its thoughts are the texts of the parts marked as thoughts, its answer
    /// is the first other text, and where there is none, all texts of the reply together.
    pub fn from_response(raw: GenerateContentResponse) -> (result: GeminiResult)
        ensures
            result.raw == raw,
            views_of(result.thoughts@) == Reading::of(raw).thoughts,
            result.answer@ == (match Reading::of(raw).answer {
                Some(answer) => answer,
                None => joined(raw.texts(), "\n\n"@, raw.texts().len() as int),
            }),
    {
        let mut thoughts: Vec<String> = Vec::new();
        let mut answer: Option<String> = None;
        let candidates = response_candidates(&raw);
        let mut c: usize = 0;
        let mut done = false;
        proof {
            assert(views_of(thoughts@) =~= Reading::nothing().thoughts);
        }
        while c < candidates.len() && !done
            invariant
                c <= candidates.len(),
                candidates@ == candidates_of(raw),
                views_of(thoughts@) == Reading::candidates(candidates@, c as int).thoughts,
                text_of(answer) == Reading::candidates(candidates@, c as int).answer,
                done ==> Reading::candidates(candidates@, c as int).complete(),
                done ==> Reading::of(raw) == Reading::candidates(candidates@, c as int),
            decreases candidates.len() - c, if done { 0int } else { 1int },
        {
            let ghost before = Reading::candidates(candidates@, c as int);
            if answer.is_some() && thoughts.len() > 0 {
                proof {
                    reading_stays(candidates@, c as int, candidates@.len() as int);
                }
                done = true;
            } else {
                let parts = candidate_parts(&candidates[c]);
                let mut p: usize = 0;
                while p < parts.len()
                    invariant
                        p <= parts.len(),
                        views_of(thoughts@) == before.parts(parts@, p as int).thoughts,
                        text_of(answer) == before.parts(parts@, p as int).answer,
                    decreases parts.len() - p,
                {
                    let part = &parts[p];
                    match &part.text {
                        Some(text) => {
                            if part.thought {
                                let ghost prior = views_of(thoughts@);
                                thoughts.push(text.clone());
                                proof {
                                    assert(views_of(thoughts@) =~= prior.push(text@));
                                }
                            } else if answer.is_none() {
                                answer = Some(text.clone());
                            }
                        },
                        None => {},
                    }
                    p += 1;
                }
                c += 1;
            }
        }
        let answer = match answer {
            Some(text) => text,
            None => raw.get_all_text(),
        };
        GeminiResult { answer, thoughts, raw }
    }

    /// The answer alone, or, where `show_thoughts` is set and there are thoughts, the
    /// thoughts and then the answer.
    pub fn formatted(&self, show_thoughts: bool) -> (text: String)
        ensures
            text@ == (if show_thoughts && self.thoughts@.len() > 0 {
                with_thoughts(views_of(self.thoughts@), self.answer@)
            } else {
                self.answer@
            }),
    {
        if show_thoughts && self.thoughts.len() > 0 {
            let mut out: Vec<char> = Vec::new();
            append_str(&mut out, "Thoughts:\n");
            append_joined(&mut out, &self.thoughts, "\n\n");
            append_str(&mut out, "\n\nAnswer:\n");
            append_str(&mut out, self.answer.as_str());
            proof {
                assert(out@ =~= with_thoughts(views_of(self.thoughts@), self.answer@));
            }
            string_of(&out)
        } else {
            self.answer.clone()
        }
    }
}

/// A reading that is complete stays as it is, however many candidates follow.
proof fn reading_stays(candidates: Seq<Candidate>, n: int, m: int)
    requires
        0 <= n <= m <= candidates.len(),
        Reading::candidates(candidates, n).complete(),
    ensures
        Reading::candidates(candidates, m) == Reading::candidates(candidates, n),
    decreases m - n,
{
    if n < m {
        reading_stays(candidates, n, m - 1);
    }
}

} // verus!
