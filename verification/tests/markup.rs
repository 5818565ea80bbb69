use tscrapingbot_rs::markup::escape_telegram_code_entities;

#[test]
fn escapes_inside_code_tags() {
    let input = r#"Antes <code>let x: Option<i32> = Some(5); // <i32> / & test</code> después"#;
    let out = escape_telegram_code_entities(input);
    assert!(out.contains(
        "<code>let x: Option&lt;i32&gt; = Some(5); // &lt;i32&gt; / &amp; test</code>"
    ));
}

#[test]
fn preserves_other_html() {
    let input = r#"Texto <b>bold</b> <code><a href="x">x</a> & <  ></code>"#;
    let out = escape_telegram_code_entities(input);
    assert!(out.contains("<b>bold</b>"));
    assert!(out.contains("<code>&lt;a href=\"x\"&gt;x&lt;/a&gt; &amp; &lt;  &gt;</code>"));
}

#[test]
fn preserves_valid_named_and_numeric_entities_inside_code() {
    let input = r#"Antes <code>&amp; &unknown; &#65; &#x41; &</code> Después"#;
    let out = escape_telegram_code_entities(input);
    assert!(out.contains("<code>&amp; &unknown; &#65; &#x41; &amp;</code>"));
}

#[test]
fn escapes_angle_brackets_outside_tags() {
    let input = r#"Comparación: 1 < 2 y 3 > 2"#;
    let out = escape_telegram_code_entities(input);
    assert_eq!(out, "Comparación: 1 &lt; 2 y 3 &gt; 2");
}

#[test]
fn preserves_tag_with_greater_than_inside_attribute_quotes() {
    let input = r#"Link: <a href="http://example.com?q=1>2">click</a> & test"#;
    let out = escape_telegram_code_entities(input);
    assert!(out.starts_with("Link: <a href=\"http://example.com?q=1>2\">click</a>"));
    assert!(out.ends_with("&amp; test"));
}

#[test]
fn handles_malformed_tag_without_closing_gt() {
    let input = r#"Mal formado: <div attr="x"#;
    let out = escape_telegram_code_entities(input);
    assert_eq!(out, "Mal formado: &lt;div attr=\"x");
}

#[test]
fn code_tag_with_attributes_escapes_inner_but_preserves_tag_attrs() {
    let input = r#"Start <code class="rust">let s = "<test>" &amp; 1;</code> End"#;
    let out = escape_telegram_code_entities(input);
    assert!(
        out.contains(r#"Start <code class="rust">let s = "&lt;test&gt;" &amp; 1;</code> End"#)
    );
}

#[test]
fn multiple_code_blocks_and_mixed_entities() {
    let input = r#"A <code>1 < 2</code> B <code>&amp; &</code> C"#;
    let out = escape_telegram_code_entities(input);
    assert!(out.contains("<code>1 &lt; 2</code>"));
    assert!(out.contains("<code>&amp; &amp;</code>"));
}

#[test]
fn numeric_and_hex_entities_and_incomplete_ampersand_outside() {
    let input = r#"Nums &#65; &#x41; &badness; &incomplete"#;
    let out = escape_telegram_code_entities(input);
    assert_eq!(out, "Nums &#65; &#x41; &badness; &amp;incomplete");
}

#[test]
fn stray_greater_and_less_outside_tags() {
    let input = r#"> <"#;
    let out = escape_telegram_code_entities(input);
    assert_eq!(out, "&gt; &lt;");
}

#[test]
fn html_like_content_inside_code_is_escaped_fully() {
    let input = r#"<code><em>x</em></code>"#;
    let out = escape_telegram_code_entities(input);
    assert_eq!(out, "<code>&lt;em&gt;x&lt;/em&gt;</code>");
}

#[test]
fn unclosed_code_tag_escapes_until_end_of_input() {
    let input = r#"Open <code>1 < 2"#;
    let out = escape_telegram_code_entities(input);
    assert_eq!(out, "Open &lt;code&gt;1 &lt; 2");
}

#[test]
fn plain_text_is_escaped() {
    assert_eq!(escape_telegram_code_entities("3 > 2 & 1 < 2"), "3 &gt; 2 &amp; 1 &lt; 2");
}

#[test]
fn entities_are_preserved() {
    assert_eq!(
        escape_telegram_code_entities("&amp; &unknown; &#65; &#x41; &"),
        "&amp; &unknown; &#65; &#x41; &amp;"
    );
}

#[test]
fn code_block_content_is_escaped() {
    assert_eq!(
        escape_telegram_code_entities("<code>let x: Option<i32></code>"),
        "<code>let x: Option&lt;i32&gt;</code>"
    );
}

#[test]
fn unclosed_code_is_plain_text() {
    assert_eq!(escape_telegram_code_entities("<code>1 < 2"), "&lt;code&gt;1 &lt; 2");
}

#[test]
fn truncated_tag_is_plain_text() {
    assert_eq!(escape_telegram_code_entities("<div attr=\"x"), "&lt;div attr=\"x");
}

#[test]
fn empty_input_gives_empty_output() {
    assert_eq!(escape_telegram_code_entities(""), "");
}

#[test]
fn code_tag_name_is_written_in_lower_case() {
    assert_eq!(escape_telegram_code_entities("<CODE>a<b</Code>"), "<code>a&lt;b</code>");
}

#[test]
fn code_needs_a_word_boundary_after_its_name() {
    // `<codex>` is an ordinary tag, and so is `</code>` where no block was opened.
    assert_eq!(escape_telegram_code_entities("<codex>1 < 2</code>"), "<codex>1 &lt; 2</code>");
    // Beyond ASCII the word class is the regex crate's: a letter is part of the name.
    assert_eq!(escape_telegram_code_entities("<code\u{e9}>x</code>"), "<code\u{e9}>x</code>");
    // A non-word character after the name leaves it a code block.
    assert_eq!(escape_telegram_code_entities("<code\u{2014}>x<y</code>"), "<code\u{2014}>x&lt;y</code>");
}

#[test]
fn code_like_tag_without_any_closing_tag_is_escaped() {
    assert_eq!(escape_telegram_code_entities("<codex> <b>"), "&lt;codex&gt; <b>");
    assert_eq!(escape_telegram_code_entities("<code a=\"&lt;\">"), "&lt;code a=\"&lt;\"&gt;");
}

#[test]
fn tag_may_span_a_code_block() {
    assert_eq!(
        escape_telegram_code_entities("<a <code>x<</code> >"),
        "<a <code>x&lt;</code> >"
    );
}

#[test]
fn numeric_entities_take_unicode_digits() {
    // Arabic-Indic digits are decimal digits; a letter is not.
    assert_eq!(escape_telegram_code_entities("&#\u{661}\u{662};"), "&#\u{661}\u{662};");
    assert_eq!(escape_telegram_code_entities("&#\u{e9};"), "&amp;#\u{e9};");
    assert_eq!(escape_telegram_code_entities("&#x;"), "&amp;#x;");
    assert_eq!(escape_telegram_code_entities("&#xZ;"), "&amp;#xZ;");
    assert_eq!(escape_telegram_code_entities("&a1;&1a;"), "&a1;&amp;1a;");
}

#[test]
fn quotes_in_attributes_hide_angle_brackets() {
    assert_eq!(escape_telegram_code_entities("<a b='>' c=\"<\">"), "<a b='>' c=\"<\">");
    assert_eq!(escape_telegram_code_entities("<a b='>"), "&lt;a b='&gt;");
    assert_eq!(escape_telegram_code_entities("<1>"), "&lt;1&gt;");
    assert_eq!(escape_telegram_code_entities("</>"), "</>");
}

#[test]
fn text_without_markup_characters_is_unchanged() {
    for text in ["", "plain", "a; b #x41 \"quoted\" 'too'", "l\u{ed}nea\n\u{7}bell \u{1f600}"] {
        assert_eq!(escape_telegram_code_entities(text), text);
    }
}

#[test]
fn text_without_closers_is_escaped_whole() {
    assert_eq!(
        escape_telegram_code_entities("<b <code &amp &#65 </code \"<\""),
        "&lt;b &lt;code &amp;amp &amp;#65 &lt;/code \"&lt;\""
    );
}

#[test]
fn code_content_never_keeps_a_bracket() {
    assert_eq!(escape_telegram_code_entities("<code><<>></code>"), "<code>&lt;&lt;&gt;&gt;</code>");
    assert_eq!(
        escape_telegram_code_entities("<code a=\">\"><b>&lt;<code></code>"),
        "<code a=\">\">&lt;b&gt;&lt;&lt;code&gt;</code>"
    );
    assert_eq!(escape_telegram_code_entities("<code>&#x3C;<</CODE>"), "<code>&#x3C;&lt;</code>");
}
