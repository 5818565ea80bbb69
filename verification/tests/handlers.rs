use tscrapingbot_rs::handlers::chat::{answer_text, push_history, ChatTurn, Role};
use tscrapingbot_rs::handlers::commands::{error_note, greeting, reset_reply};
use tscrapingbot_rs::handlers::image::{
    data_url, detect_image_mime, extract_text_from_message_content, find_first_string_in_value, image_data_url,
    image_section, largest_photo, message_has_photo, JsonNode, MessageContent, MessagePart, VisionOutcome,
};
use tscrapingbot_rs::handlers::llm::{
    main_conversation, reasoning_conversation, run_main_model, run_reasoning_step, ModelReply, ReasoningStep,
};
use tscrapingbot_rs::handlers::page::{ascii_lowercase, simplify_body, HtmlNode};
use tscrapingbot_rs::handlers::reply::{reply_plan, ReplyPlan, ReplyTarget};
use tscrapingbot_rs::handlers::search::{
    failure_reply, is_blank, is_parse_error, mentions_parsing, search_conversation, search_url, stored_request,
    SearchFailure,
};
use tscrapingbot_rs::handlers::user::{extract_user_info, MessageOrigin, Sender};
use tscrapingbot_rs::xml::MessageRow;

fn el(name: &str, children: Vec<HtmlNode>) -> HtmlNode {
    HtmlNode::Element { name: name.to_string(), children }
}

fn txt(s: &str) -> HtmlNode {
    HtmlNode::Text(s.to_string())
}

fn pairs(turns: &[ChatTurn]) -> Vec<(Role, String)> {
    turns.iter().map(|t| (t.role, t.text.clone())).collect()
}

#[test]
fn page_keeps_the_listed_tags_and_escapes_text() {
    let page = el(
        "BODY",
        vec![
            el("div", vec![el("P", vec![txt("  a < b & c  ")]), txt(" \n ")]),
            el("script", vec![txt("alert(1)")]),
            el("Style", vec![txt("p {}")]),
            el("br", vec![]),
            HtmlNode::Other(vec![el("code", vec![txt("x>y")])]),
            el("span", vec![txt("tail")]),
        ],
    );
    assert_eq!(
        simplify_body(&page),
        "<body><p>a &lt; b &amp; c </p><br><code>x&gt;y </code>tail</body>"
    );
    assert_eq!(simplify_body(&txt("   ")), "<body></body>");
    assert_eq!(simplify_body(&el("h1", vec![])), "<body><h1></h1></body>");
    assert_eq!(ascii_lowercase("H1-\u{c9}"), "h1-\u{c9}");
}

#[test]
fn user_info_prefers_the_thread() {
    let msg = MessageOrigin {
        from: Some(Sender { id: 42, language_code: Some("es".to_string()) }),
        thread_id: Some(7),
        chat_id: -100,
    };
    assert_eq!(extract_user_info(&msg), Ok((42, "es".to_string(), 7)));
    let msg = MessageOrigin { from: Some(Sender { id: 1, language_code: None }), thread_id: None, chat_id: -100 };
    assert_eq!(extract_user_info(&msg), Ok((1, "en".to_string(), -100)));
    let msg = MessageOrigin { from: None, thread_id: None, chat_id: 5 };
    assert_eq!(extract_user_info(&msg), Err("The user could not be identified.".to_string()));
    let msg = MessageOrigin { from: Some(Sender { id: u64::MAX, language_code: None }), thread_id: Some(-3), chat_id: 5 };
    assert_eq!(extract_user_info(&msg), Ok((u64::MAX as i64, "en".to_string(), -3)));
    let msg = MessageOrigin { from: Some(Sender { id: 1 << 63, language_code: None }), thread_id: None, chat_id: 5 };
    assert_eq!(extract_user_info(&msg), Ok((i64::MIN, "en".to_string(), 5)));
}

#[test]
fn replies_go_to_groups_and_plain_messages_elsewhere() {
    assert_eq!(
        reply_plan(true, 9, Some(3), true, true),
        ReplyPlan {
            reply_to: Some(ReplyTarget { message_id: 9, allow_sending_without_reply: true }),
            parse_html: true,
            thread_id: Some(3),
        }
    );
    assert_eq!(
        reply_plan(false, 9, Some(3), true, false),
        ReplyPlan { reply_to: None, parse_html: false, thread_id: None }
    );
}

#[test]
fn image_kind_is_told_by_signature() {
    assert_eq!(detect_image_mime(&[0xFF, 0xD8, 0xFF, 0xE0]), "image/jpeg");
    assert_eq!(detect_image_mime(&[0x89, 0x50, 0x4E, 0x47, 0x0D, 0x0A, 0x1A, 0x0A, 0]), "image/png");
    assert_eq!(detect_image_mime(b"GIF89a..."), "image/gif");
    assert_eq!(detect_image_mime(b"GIF87a"), "image/gif");
    assert_eq!(detect_image_mime(b"GIF88a"), "image/jpeg");
    assert_eq!(detect_image_mime(&[0xFF, 0xD8]), "image/jpeg");
    assert_eq!(detect_image_mime(&[]), "image/jpeg");
    assert_eq!(detect_image_mime(&[0x89, 0x50, 0x4E, 0x47]), "image/jpeg");
}

#[test]
fn largest_photo_is_the_last_of_the_largest() {
    assert_eq!(largest_photo(&[]), None);
    assert_eq!(largest_photo(&[5]), Some(0));
    assert_eq!(largest_photo(&[1, 9, 3, 9, 2]), Some(3));
    assert_eq!(largest_photo(&[9, 1]), Some(0));
    assert!(message_has_photo(&[1]));
    assert!(!message_has_photo(&[]));
}

#[test]
fn data_url_holds_kind_and_base64() {
    assert_eq!(data_url("image/png", "QUJD"), "data:image/png;base64,QUJD");
    assert_eq!(image_data_url(b"GIF89a"), "data:image/gif;base64,R0lGODlh");
    assert_eq!(image_data_url(&[0xFF, 0xD8, 0xFF, 0x00]), "data:image/jpeg;base64,/9j/AA==");
    assert_eq!(image_data_url(&[]), "data:image/jpeg;base64,");
}

#[test]
fn text_is_taken_from_message_content() {
    assert_eq!(
        extract_text_from_message_content(&MessageContent::Text(" hi ".to_string())),
        Some(" hi ".to_string())
    );
    assert_eq!(extract_text_from_message_content(&MessageContent::Text(" \n".to_string())), None);
    assert_eq!(extract_text_from_message_content(&MessageContent::Other), None);
    let parts = MessageContent::Parts(vec![
        MessagePart::Text("  ".to_string()),
        MessagePart::Text(" a ".to_string()),
        MessagePart::Other,
        MessagePart::Text("b\n".to_string()),
    ]);
    assert_eq!(extract_text_from_message_content(&parts), Some("a\nb".to_string()));
    assert_eq!(extract_text_from_message_content(&MessageContent::Parts(vec![MessagePart::Other])), None);
    assert_eq!(answer_text(&MessageContent::Text("  x y \n".to_string())), "x y");
    assert_eq!(answer_text(&parts), "");
}

#[test]
fn image_section_says_what_came_of_the_model() {
    assert_eq!(
        image_section(&VisionOutcome::Answer("  a cat \n".to_string())),
        "Image analysis (vision model):\na cat\n\n"
    );
    assert_eq!(image_section(&VisionOutcome::NoText), "Image analysis: [no text extracted]\n\n");
    assert_eq!(image_section(&VisionOutcome::NoChoices), "Image analysis: [no choices returned]\n\n");
    assert_eq!(image_section(&VisionOutcome::Failed), "Image analysis: [vision model error]\n\n");
}

#[test]
fn first_string_is_found_depth_first() {
    let doc = JsonNode::List(vec![
        JsonNode::Other,
        JsonNode::Text("  ".to_string()),
        JsonNode::List(vec![JsonNode::List(vec![]), JsonNode::List(vec![JsonNode::Text("deep".to_string())])]),
        JsonNode::Text("later".to_string()),
    ]);
    assert_eq!(find_first_string_in_value(&doc), Some("deep".to_string()));
    assert_eq!(find_first_string_in_value(&JsonNode::Text(" x ".to_string())), Some(" x ".to_string()));
    assert_eq!(find_first_string_in_value(&JsonNode::Other), None);
    assert_eq!(find_first_string_in_value(&JsonNode::List(vec![JsonNode::Text("".to_string())])), None);
}

#[test]
fn search_address_is_made_from_the_first_word() {
    assert_eq!(
        search_url("T", "  https://a.b/c?x=1&y=2&z  and more"),
        Some("http://api.scrape.do/?token=T&url=https://a.b/c?x=1%26y=2%26z".to_string())
    );
    assert_eq!(search_url("T", "http://x"), Some("http://api.scrape.do/?token=T&url=http://x".to_string()));
    assert_eq!(search_url("T", "\u{a0}http://x\u{3000}y"), Some("http://api.scrape.do/?token=T&url=http://x".to_string()));
    assert_eq!(search_url("T", "ftp://x http://y"), None);
    assert_eq!(search_url("T", "HTTP://x"), None);
    assert_eq!(search_url("T", "https:/x"), None);
    assert_eq!(search_url("T", "   "), None);
    assert_eq!(search_url("T", ""), None);
    assert!(is_blank(" \t\n"));
    assert!(is_blank(""));
    assert!(!is_blank(" a "));
}

#[test]
fn search_conversation_puts_history_oldest_first() {
    let newest_first = vec![
        MessageRow { content: Some("q2".to_string()), ia_response: Some("a2".to_string()) },
        MessageRow { content: None, ia_response: Some("a1".to_string()) },
        MessageRow { content: Some("q0".to_string()), ia_response: None },
    ];
    let turns = search_conversation("SYS", &newest_first, "es", "http://x tell me", "<body>p</body>");
    assert_eq!(
        pairs(&turns),
        vec![
            (Role::System, "SYS".to_string()),
            (Role::User, "q0".to_string()),
            (Role::Assistant, "a1".to_string()),
            (Role::User, "q2".to_string()),
            (Role::Assistant, "a2".to_string()),
            (Role::User, "Main lang is \"es\":\n\nUser prompt: http://x tell me".to_string()),
            (Role::User, "WebResource:\n<body>p</body>".to_string()),
        ]
    );
    let mut forward: Vec<ChatTurn> = Vec::new();
    push_history(&mut forward, &newest_first);
    assert_eq!(
        pairs(&forward),
        vec![
            (Role::User, "q2".to_string()),
            (Role::Assistant, "a2".to_string()),
            (Role::Assistant, "a1".to_string()),
            (Role::User, "q0".to_string()),
        ]
    );
    assert_eq!(stored_request("q", "page"), "q\n\nWeb Resource:\n\npage");
}

#[test]
fn parse_errors_are_recognised_in_any_case() {
    assert!(is_parse_error("Bad Request: can't PARSE entities"));
    assert!(is_parse_error("error while Parsing"));
    assert!(!is_parse_error("Bad Request: chat not found"));
    assert!(!is_parse_error("pars e"));
    assert!(mentions_parsing("parse"));
    assert!(mentions_parsing("xparsingx"));
    assert!(!mentions_parsing("PARSE"));
    assert!(!mentions_parsing(""));
}

#[test]
fn search_failures_have_their_replies() {
    assert_eq!(failure_reply(&SearchFailure::EmptyText), "I can't reply to an empty message.");
    assert_eq!(failure_reply(&SearchFailure::NoUser("who?".to_string())), "who?");
    assert_eq!(failure_reply(&SearchFailure::History), "Database error");
    assert_eq!(failure_reply(&SearchFailure::BadUrl), "Use a valid URL (http:// or https://).");
    assert_eq!(failure_reply(&SearchFailure::Fetch), "Search error.");
    assert_eq!(failure_reply(&SearchFailure::Model("boom".to_string())), "Error: boom.");
    assert_eq!(failure_reply(&SearchFailure::Store), "Database error (couldn't save message).");
}

#[test]
fn reasoning_step_retries_once() {
    let text = ModelReply::Content(MessageContent::Text(" thought \n".to_string()));
    let other = ModelReply::Content(MessageContent::Other);
    let failed = ModelReply::Failed("down".to_string());
    assert!(matches!(run_reasoning_step(0, &text, "base"), ReasoningStep::Done(Some(t)) if t == "thought"));
    assert!(matches!(run_reasoning_step(1, &text, "base"), ReasoningStep::Done(Some(t)) if t == "thought"));
    assert!(matches!(run_reasoning_step(0, &other, "base"), ReasoningStep::Retry));
    assert!(matches!(run_reasoning_step(1, &other, "base"), ReasoningStep::Done(Some(t)) if t == "base"));
    assert!(matches!(run_reasoning_step(0, &failed, "base"), ReasoningStep::Done(None)));
    assert!(matches!(run_reasoning_step(1, &failed, "base"), ReasoningStep::Done(None)));
    assert!(matches!(run_reasoning_step(2, &text, "base"), ReasoningStep::Done(None)));
    assert_eq!(
        pairs(&reasoning_conversation("S", "P")),
        vec![(Role::System, "S".to_string()), (Role::User, "Full prompt+history:\n\nP".to_string())]
    );
}

#[test]
fn main_model_gives_text_or_error() {
    assert_eq!(run_main_model(&ModelReply::Content(MessageContent::Text(" ok ".to_string()))), Ok("ok".to_string()));
    assert_eq!(run_main_model(&ModelReply::Content(MessageContent::Other)), Ok(String::new()));
    assert_eq!(
        run_main_model(&ModelReply::Failed("timeout".to_string())),
        Err("Main model error: timeout".to_string())
    );
    assert_eq!(
        pairs(&main_conversation("S", "P")),
        vec![(Role::System, "S".to_string()), (Role::User, "P".to_string())]
    );
}

#[test]
fn small_commands_say_their_lines() {
    assert_eq!(
        greeting("1.2.3"),
        "Hello! I'm TScrapingBot v1.2.3, your Telegram assistant for web scraping and artificial intelligence. Use /help to see my commands."
    );
    let r = reset_reply(Some(3));
    assert_eq!(r.text, "Chat reset successfully.");
    assert!(r.shutdown_first);
    let r = reset_reply(Some(0));
    assert_eq!(r.text, "The chat has already been reset.");
    assert!(!r.shutdown_first);
    let r = reset_reply(None);
    assert_eq!(r.text, "Error clearing messages.");
    assert!(r.shutdown_first);
    assert_eq!(error_note("x"), "Error: x");
}
