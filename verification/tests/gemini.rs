use tscrapingbot_rs::gemini::types::{
    Candidate, GenerateContentResponse, InputPart, ResponseContent, ResponsePart,
};
use tscrapingbot_rs::gemini::{http_failure, Gemini, GeminiResult, SendFailure, ThinkingConfig};
use tscrapingbot_rs::prompts::{GeminiPrompt, Prompt};

fn part(text: Option<&str>, thought: bool) -> ResponsePart {
    ResponsePart { text: text.map(|t| t.to_string()), thought }
}

fn candidate(parts: Vec<ResponsePart>) -> Candidate {
    Candidate { index: None, content: Some(ResponseContent { parts: Some(parts), mime_type: None }) }
}

fn response(candidates: Vec<Candidate>) -> GenerateContentResponse {
    GenerateContentResponse { candidates: Some(candidates) }
}

#[test]
fn client_keeps_its_key() {
    let client = Gemini::new("k-1".to_string());
    assert_eq!(client.api_key, "k-1");
}

#[test]
fn request_starts_with_defaults() {
    let b = Gemini::new("key".to_string()).request();
    assert_eq!(b.api_key, "key");
    assert_eq!(b.model, "gemini-2.5-flash");
    assert!(b.parts.is_empty());
    assert_eq!(b.top_k, None);
    assert_eq!(b.max_output_tokens, None);
    assert_eq!(b.candidate_count, None);
    assert_eq!(b.system_instruction, None);
    assert_eq!(b.thinking_budget, None);
    assert_eq!(b.include_thoughts, None);
    assert_eq!(b.response_mime_type, None);
    assert_eq!(b.thinking_config(), None);
    assert_eq!(
        b.ready(),
        Err("No content parts provided. Use add_text, add_base64_media, or add_file_uri before sending.".to_string())
    );
}

#[test]
fn builder_keeps_every_setting() {
    let b = Gemini::new("key".to_string())
        .request()
        .set_model("m-2")
        .set_top_k(1)
        .set_max_output_tokens(2000)
        .set_candidate_count(3)
        .set_thinking_budget(1000)
        .set_include_thoughts(true)
        .set_system_instruction("be brief")
        .set_response_mime_type("application/json")
        .add_text("hello")
        .add_base64_media("image/png", "AAAA")
        .add_file_uri("video/mp4", "gs://x");
    assert_eq!(b.model, "m-2");
    assert_eq!(b.top_k, Some(1));
    assert_eq!(b.max_output_tokens, Some(2000));
    assert_eq!(b.candidate_count, Some(3));
    assert_eq!(b.thinking_budget, Some(1000));
    assert_eq!(b.include_thoughts, Some(true));
    assert_eq!(b.system_instruction.as_deref(), Some("be brief"));
    assert_eq!(b.response_mime_type.as_deref(), Some("application/json"));
    assert_eq!(b.parts.len(), 3);
    assert!(matches!(&b.parts[0], InputPart::Text(t) if t == "hello"));
    assert!(matches!(&b.parts[1], InputPart::InlineData(blob) if blob.mime_type == "image/png" && blob.data == "AAAA"));
    assert!(matches!(&b.parts[2], InputPart::FileData(f) if f.mime_type.as_deref() == Some("video/mp4") && f.file_uri == "gs://x"));
    assert_eq!(b.ready(), Ok(()));
    assert_eq!(
        b.thinking_config(),
        Some(ThinkingConfig { thinking_budget: Some(1000), include_thoughts: Some(true) })
    );
    assert_eq!(
        b.endpoint(),
        "https://generativelanguage.googleapis.com/v1beta/models/m-2:generateContent?key=key"
    );
}

#[test]
fn thinking_config_needs_one_option() {
    let b = Gemini::new("k".to_string()).request().set_include_thoughts(false);
    assert_eq!(
        b.thinking_config(),
        Some(ThinkingConfig { thinking_budget: None, include_thoughts: Some(false) })
    );
}

#[test]
fn http_failure_lists_status_type_and_body() {
    assert_eq!(
        http_failure(404, "Not Found", "text/plain", "gone"),
        "HTTP 404 Not Found\nContent-Type: text/plain\nBody:\ngone"
    );
    assert_eq!(http_failure(0, "", "<no content-type>", ""), "HTTP 0 \nContent-Type: <no content-type>\nBody:\n");
}

#[test]
fn all_text_joins_with_empty_lines() {
    let r = response(vec![
        candidate(vec![part(Some("a"), false), part(None, false), part(Some("b"), true)]),
        Candidate { index: Some(1), content: None },
        candidate(vec![part(Some("c"), false)]),
    ]);
    assert_eq!(r.get_all_text(), "a\n\nb\n\nc");
    assert_eq!(GenerateContentResponse { candidates: None }.get_all_text(), "");
    assert_eq!(response(vec![candidate(vec![part(Some("only"), false)])]).get_all_text(), "only");
}

#[test]
fn result_takes_first_answer_and_all_thoughts_of_the_first_full_candidate() {
    let r = response(vec![
        candidate(vec![
            part(Some("t1"), true),
            part(Some("answer"), false),
            part(Some("later"), false),
            part(Some("t2"), true),
        ]),
        candidate(vec![part(Some("t3"), true), part(Some("other"), false)]),
    ]);
    let result = GeminiResult::from_response(r);
    assert_eq!(result.answer, "answer");
    assert_eq!(result.thoughts, vec!["t1".to_string(), "t2".to_string()]);
    assert_eq!(result.formatted(false), "answer");
    assert_eq!(result.formatted(true), "Thoughts:\nt1\n\nt2\n\nAnswer:\nanswer");
    assert_eq!(result.raw.candidates.as_ref().map(|c| c.len()), Some(2));
}

#[test]
fn result_reads_on_until_answer_and_thought_are_there() {
    let r = response(vec![
        candidate(vec![part(Some("a1"), false)]),
        candidate(vec![part(Some("t"), true), part(Some("a2"), false)]),
        candidate(vec![part(Some("t-late"), true)]),
    ]);
    let result = GeminiResult::from_response(r);
    assert_eq!(result.answer, "a1");
    assert_eq!(result.thoughts, vec!["t".to_string()]);
}

#[test]
fn result_without_answer_falls_back_to_all_text() {
    let r = response(vec![candidate(vec![part(Some("t1"), true), part(Some("t2"), true)])]);
    let result = GeminiResult::from_response(r);
    assert_eq!(result.answer, "t1\n\nt2");
    assert_eq!(result.thoughts.len(), 2);
    let empty = GeminiResult::from_response(GenerateContentResponse { candidates: None });
    assert_eq!(empty.answer, "");
    assert!(empty.thoughts.is_empty());
    assert_eq!(empty.formatted(true), "");
}

#[test]
fn first_candidate_json_is_parsed() {
    let r = response(vec![candidate(vec![part(Some("{\"a\": [1, 2]}"), false)])]);
    let v = r.parse_first_candidate_json().expect("a JSON document");
    assert_eq!(v["a"][1], 2);
    assert_eq!(r.first_candidate_text().map(|s| s.as_str()), Some("{\"a\": [1, 2]}"));
    let bad = response(vec![candidate(vec![part(Some("{not json"), false)])]);
    assert!(bad.parse_first_candidate_json().is_none());
    let second = response(vec![candidate(vec![part(None, false), part(Some("1"), false)])]);
    assert!(second.parse_first_candidate_json().is_none());
    assert!(GenerateContentResponse { candidates: Some(vec![]) }.parse_first_candidate_json().is_none());
}

#[test]
fn prompts_are_kept_and_found() {
    let p = GeminiPrompt::new("H".to_string(), "T".to_string(), "TF".to_string());
    assert_eq!(p.html, "H");
    assert_eq!(p.get(Prompt::Html), "H");
    assert_eq!(p.get(Prompt::Thinking), "T");
    assert_eq!(p.get(Prompt::ThinkAndFormat), "TF");
}

#[test]
fn send_failures_have_their_messages() {
    assert_eq!(SendFailure::Request("refused".to_string()).message(), "HTTP request error: refused");
    assert_eq!(SendFailure::Body("cut".to_string()).message(), "Error reading response body text: cut");
    assert_eq!(
        SendFailure::Status {
            status: 503,
            reason: "Service Unavailable".to_string(),
            content_type: "text/html".to_string(),
            body: "<h1>no</h1>".to_string(),
        }
        .message(),
        "HTTP 503 Service Unavailable\nContent-Type: text/html\nBody:\n<h1>no</h1>"
    );
    assert_eq!(
        SendFailure::Mismatch {
            error: "missing field".to_string(),
            content_type: "application/json".to_string(),
            pretty: "{}".to_string(),
        }
        .message(),
        "JSON deserialization mismatch: missing field\nContent-Type: application/json\nJSON body (abridged):\n{}"
    );
    assert_eq!(
        SendFailure::NotJson { error: "e1".to_string(), value_error: "e2".to_string(), body: "raw".to_string() }
            .message(),
        "Failed to parse body as JSON: e1\nAlso failed to parse as serde_json::Value: e2\nRaw body:\nraw"
    );
}
