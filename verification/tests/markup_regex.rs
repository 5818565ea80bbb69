use regex::{Captures, Regex};
use tscrapingbot_rs::markup::escape_telegram_code_entities;

// The grammar written as regular expressions, applied pass by pass with markers that
// cannot occur in the generated inputs.
fn marker(prefix: &str, idx: usize) -> String {
    format!("\u{7}{}{}\u{7}", prefix, idx)
}

fn by_passes(input: &str) -> String {
    let code_re = Regex::new(r#"(?is)<code\b((?:[^"'<>]|"[^"]*"|'[^']*')*)>(.*?)</code>"#).unwrap();
    let tag_re = Regex::new(r#"(?s)<[A-Za-z/](?:[^"'<>]|"[^"]*"|'[^']*')*>"#).unwrap();
    let entity_re = Regex::new(r#"&(?:#x[0-9A-Fa-f]+|#\d+|[A-Za-z][A-Za-z0-9]*);"#).unwrap();

    let mut code_blocks: Vec<String> = Vec::new();
    let after_code = code_re
        .replace_all(input, |caps: &Captures| {
            let attrs = caps.get(1).map(|m| m.as_str()).unwrap_or("");
            let inner = caps.get(2).map(|m| m.as_str()).unwrap_or("");
            let mut kept: Vec<String> = Vec::new();
            let protected = entity_re
                .replace_all(inner, |ec: &Captures| {
                    kept.push(ec.get(0).unwrap().as_str().to_string());
                    marker("ENTC", kept.len() - 1)
                })
                .into_owned();
            let mut escaped = protected.replace('&', "&amp;");
            escaped = escaped.replace('<', "&lt;");
            escaped = escaped.replace('>', "&gt;");
            for (i, ent) in kept.iter().enumerate() {
                escaped = escaped.replace(&marker("ENTC", i), ent);
            }
            code_blocks.push(format!("<code{}>{}</code>", attrs, escaped));
            marker("CODE", code_blocks.len() - 1)
        })
        .into_owned();

    let has_closing = after_code.to_lowercase().contains("</code>");
    let mut tags: Vec<String> = Vec::new();
    let after_tags = tag_re
        .replace_all(&after_code, |caps: &Captures| {
            let tag = caps.get(0).unwrap().as_str().to_string();
            let low = tag.to_lowercase();
            if (low.starts_with("<code") || low.starts_with("</code")) && !has_closing {
                return tag;
            }
            tags.push(tag);
            marker("TAG", tags.len() - 1)
        })
        .into_owned();

    let mut entities: Vec<String> = Vec::new();
    let after_entities = entity_re
        .replace_all(&after_tags, |caps: &Captures| {
            entities.push(caps.get(0).unwrap().as_str().to_string());
            marker("ENTG", entities.len() - 1)
        })
        .into_owned();

    let mut out = after_entities.replace('&', "&amp;");
    out = out.replace('<', "&lt;");
    out = out.replace('>', "&gt;");
    for (i, ent) in entities.iter().enumerate() {
        out = out.replace(&marker("ENTG", i), ent);
    }
    for (i, tag) in tags.iter().enumerate() {
        out = out.replace(&marker("TAG", i), tag);
    }
    for (i, block) in code_blocks.iter().enumerate() {
        out = out.replace(&marker("CODE", i), block);
    }
    out
}

fn next(state: &mut u64) -> u64 {
    *state = state
        .wrapping_mul(6364136223846793005)
        .wrapping_add(1442695040888963407);
    *state >> 33
}

fn generated(state: &mut u64, tokens: &[&str], max_len: u64) -> String {
    let n = next(state) % max_len;
    let mut s = String::new();
    for _ in 0..n {
        s.push_str(tokens[(next(state) % tokens.len() as u64) as usize]);
    }
    s
}

#[test]
fn agrees_with_the_passes_on_markup_soup() {
    let tokens = [
        "<", ">", "&", ";", "#", "x", "/", "\"", "'", " ", "a", "1", "code", "CODE", "<code", "</code>",
        "<code>", "</Code>", "&amp;", "&#", "&#x", "b", "=", "\n", "f", "Z", "_", "-",
    ];
    let mut state: u64 = 0x5eed;
    for _ in 0..4000 {
        let input = generated(&mut state, &tokens, 14);
        assert_eq!(escape_telegram_code_entities(&input), by_passes(&input), "input: {:?}", input);
    }
}

#[test]
fn agrees_with_the_passes_beyond_ascii() {
    let tokens = [
        "<code", ">", "</code>", "&#", ";", "<", "&", "\u{e9}", "\u{661}", "\u{2014}", "\u{212a}", "\u{130}",
        "\u{3a3}", "\u{ff11}", "\u{200d}", "\u{301}", "\u{203f}", "e", "d", "o", "c", "/", "\u{17f}", "1", "\"",
    ];
    let mut state: u64 = 0xc0de;
    for _ in 0..3000 {
        let input = generated(&mut state, &tokens, 10);
        assert_eq!(escape_telegram_code_entities(&input), by_passes(&input), "input: {:?}", input);
    }
}

#[test]
fn agrees_with_the_passes_on_long_text() {
    let tokens = [
        "plain text ", "<b>", "</b>", "<i class=\"x>y\">", "<code>", "</code>", "1 < 2 ", "&lt;", "&", "<a href='",
        "'>", "<code lang=\"rs\">", "fn f() -> Vec<u8> {}", "&#65;", "&#x41;", "&nbsp;", "\"", "\n",
    ];
    let mut state: u64 = 0xfeed;
    for _ in 0..300 {
        let input = generated(&mut state, &tokens, 60);
        assert_eq!(escape_telegram_code_entities(&input), by_passes(&input), "input: {:?}", input);
    }
}
