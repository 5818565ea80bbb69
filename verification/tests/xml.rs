use tscrapingbot_rs::xml::{escape_xml, format_messages_xml, wrap_cdata_safe, MessageRow};

#[test]
fn test_escape_vs_cdata_and_ids() {
    let rows = vec![
        MessageRow {
            content: Some("Hola & <mundo>".into()),
            ia_response: Some("Bien > todo".into()),
        },
        MessageRow {
            content: Some("Mensaje con ]]> dentro: ]]>!".into()),
            ia_response: None,
        },
    ];

    let xml_escape = format_messages_xml(&rows, 1, false);
    assert!(xml_escape.contains("&amp;"));
    assert!(xml_escape.contains("&lt;"));

    let xml_cdata = format_messages_xml(&rows, 10, true);

    assert!(xml_cdata.contains(r#"id="12" role="user""#));
    assert!(xml_cdata.contains(r#"id="11" role="assistant""#));
    assert!(xml_cdata.contains(r#"id="10" role="user""#));

    let p12 = xml_cdata
        .find(r#"id="12" role="user""#)
        .expect("falta id=12");
    let p11 = xml_cdata
        .find(r#"id="11" role="assistant""#)
        .expect("falta id=11");
    let p10 = xml_cdata
        .find(r#"id="10" role="user""#)
        .expect("falta id=10");
    assert!(
        p12 < p11 && p11 < p10,
        "orden de ids incorrecto: xml = {}",
        xml_cdata
    );

    assert!(
        xml_cdata.contains("<![CDATA[Mensaje con ]]]><![CDATA[> dentro: ]]>!]]>")
            || xml_cdata.contains("]]]]><![CDATA[>")
    );
}

#[test]
fn whole_document_with_escaping() {
    let rows = vec![
        MessageRow { content: Some("  a<b \n".into()), ia_response: Some("\t".into()) },
        MessageRow { content: None, ia_response: Some("\"x\" & 'y'".into()) },
    ];
    assert_eq!(
        format_messages_xml(&rows, 7, false),
        "<?xml version=\"1.0\" encoding=\"utf-8\"?>\n<messages>\n  <message id=\"8\" role=\"user\">a&lt;b</message>\n  <message id=\"7\" role=\"assistant\">&quot;x&quot; &amp; &apos;y&apos;</message>\n</messages>\n"
    );
}

#[test]
fn no_rows_give_an_empty_document() {
    let rows: Vec<MessageRow> = Vec::new();
    assert_eq!(
        format_messages_xml(&rows, 0, true),
        "<?xml version=\"1.0\" encoding=\"utf-8\"?>\n<messages>\n</messages>\n"
    );
}

#[test]
fn ids_reach_the_largest_number() {
    let rows = vec![MessageRow { content: Some("a".into()), ia_response: Some("b".into()) }];
    let xml = format_messages_xml(&rows, u64::MAX - 1, true);
    assert!(xml.contains("id=\"18446744073709551615\" role=\"user\""));
    assert!(xml.contains("id=\"18446744073709551614\" role=\"assistant\""));
}

#[test]
fn cdata_splits_every_terminator() {
    assert_eq!(wrap_cdata_safe(""), "<![CDATA[]]>");
    assert_eq!(wrap_cdata_safe("a]]>b"), "<![CDATA[a]]]]><![CDATA[>b]]>");
    assert_eq!(wrap_cdata_safe("]]]>"), "<![CDATA[]]]]]><![CDATA[>]]>");
    assert_eq!(wrap_cdata_safe("]]>]]>"), "<![CDATA[]]]]><![CDATA[>]]]]><![CDATA[>]]>");
}

#[test]
fn xml_escape_covers_the_five_characters() {
    assert_eq!(escape_xml("<a href=\"x\">'&'</a>"), "&lt;a href=&quot;x&quot;&gt;&apos;&amp;&apos;&lt;/a&gt;");
    assert_eq!(escape_xml("plain"), "plain");
}
