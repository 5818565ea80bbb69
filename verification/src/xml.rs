//! Conversation history as an XML document.
use vstd::prelude::*;
use crate::text::{
    append_decimal, append_str, chars_of, decimal, string_of, trimmed, trimmed_chars,
};

verus! {

/// One stored exchange: what the user wrote and what the assistant answered.
pub struct MessageRow {
    pub content: Option<String>,
    pub ia_response: Option<String>,
}

/// What one character becomes in XML text.
pub open spec fn xml_char(c: char) -> Seq<char> {
    if c == '&' {
        "&amp;"@
    } else if c == '<' {
        "&lt;"@
    } else if c == '>' {
        "&gt;"@
    } else if c == '"' {
        "&quot;"@
    } else if c == '\'' {
        "&apos;"@
    } else {
        seq![c]
    }
}

/// `s` from `i` on with the five characters that XML reserves written as entities.
pub open spec fn xml_escaped(s: Seq<char>, i: int) -> Seq<char>
    decreases s.len() - i,
{
    if i < 0 || i >= s.len() {
        Seq::empty()
    } else {
        xml_char(s[i]) + xml_escaped(s, i + 1)
    }
}

/// `]]>` stands at `i`.
pub open spec fn cdata_end_at(s: Seq<char>, i: int) -> bool {
    0 <= i && i + 3 <= s.len() && s[i] == ']' && s[i + 1] == ']' && s[i + 2] == '>'
}

/// `s` from `i` on with every `]]>` split, from left to right, so that none is left.
pub open spec fn cdata_split(s: Seq<char>, i: int) -> Seq<char>
    decreases s.len() - i,
{
    if i < 0 || i >= s.len() {
        Seq::empty()
    } else if cdata_end_at(s, i) {
        "]]]]><![CDATA[>"@ + cdata_split(s, i + 3)
    } else {
        seq![s[i]] + cdata_split(s, i + 1)
    }
}

/// `s` as one or more CDATA sections.
pub open spec fn cdata_wrapped(s: Seq<char>) -> Seq<char> {
    "<![CDATA["@ + cdata_split(s, 0) + "]]>"@
}

/// Escapes the five characters that XML reserves.
pub fn escape_xml(s: &str) -> (out: String)
    ensures
        out@ == xml_escaped(s@, 0),
{
    let chars = chars_of(s);
    let mut out: Vec<char> = Vec::new();
    append_xml_escaped(&mut out, &chars);
    string_of(&out)
}

/// Wraps `s` in CDATA, splitting each `]]>` in it.
pub fn wrap_cdata_safe(s: &str) -> (out: String)
    ensures
        out@ == cdata_wrapped(s@),
{
    let chars = chars_of(s);
    let mut out: Vec<char> = Vec::new();
    append_cdata(&mut out, &chars);
    string_of(&out)
}

fn append_xml_escaped(out: &mut Vec<char>, s: &Vec<char>)
    ensures
        final(out)@ == old(out)@ + xml_escaped(s@, 0),
{
    let mut i: usize = 0;
    proof {
        assert(out@ + xml_escaped(s@, 0) =~= old(out)@ + xml_escaped(s@, 0));
    }
    while i < s.len()
        invariant
            i <= s.len(),
            out@ + xml_escaped(s@, i as int) == old(out)@ + xml_escaped(s@, 0),
        decreases s.len() - i,
    {
        let ghost before = out@;
        let ghost rest = xml_escaped(s@, i as int);
        let c = s[i];
        if c == '&' {
            append_str(out, "&amp;");
        } else if c == '<' {
            append_str(out, "&lt;");
        } else if c == '>' {
            append_str(out, "&gt;");
        } else if c == '"' {
            append_str(out, "&quot;");
        } else if c == '\'' {
            append_str(out, "&apos;");
        } else {
            out.push(c);
            proof {
                assert(out@ =~= before + seq![c]);
            }
        }
        proof {
            assert(out@ + xml_escaped(s@, i as int + 1) =~= before + rest);
        }
        i += 1;
    }
    proof {
        assert(out@ + Seq::<char>::empty() =~= out@);
    }
}

fn append_cdata(out: &mut Vec<char>, s: &Vec<char>)
    ensures
        final(out)@ == old(out)@ + cdata_wrapped(s@),
{
    append_str(out, "<![CDATA[");
    let ghost opened = out@;
    let mut i: usize = 0;
    proof {
        assert(out@ + cdata_split(s@, 0) =~= opened + cdata_split(s@, 0));
    }
    while i < s.len()
        invariant
            i <= s.len(),
            out@ + cdata_split(s@, i as int) == opened + cdata_split(s@, 0),
        decreases s.len() - i,
    {
        let ghost before = out@;
        let ghost rest = cdata_split(s@, i as int);
        if s.len() - i >= 3 && s[i] == ']' && s[i + 1] == ']' && s[i + 2] == '>' {
            append_str(out, "]]]]><![CDATA[>");
            proof {
                assert(out@ + cdata_split(s@, i as int + 3) =~= before + rest);
            }
            i += 3;
        } else {
            out.push(s[i]);
            proof {
                assert(out@ + cdata_split(s@, i as int + 1) =~= before + rest);
            }
            i += 1;
        }
    }
    append_str(out, "]]>");
    proof {
        assert(out@ =~= old(out)@ + cdata_wrapped(s@));
    }
}

/// The text of a stored message that is sent on: what is left of it without the white space
/// at its ends, provided that something is left.
pub open spec fn message_text(field: Option<String>) -> Option<Seq<char>> {
    match field {
        Some(s) => if trimmed(s@).len() > 0 {
            Some(trimmed(s@))
        } else {
            None
        },
        None => None,
    }
}

/// How many messages a row gives.
pub open spec fn row_messages(row: MessageRow) -> nat {
    (if message_text(row.content) is Some {
        1nat
    } else {
        0nat
    }) + (if message_text(row.ia_response) is Some {
        1nat
    } else {
        0nat
    })
}

/// How many messages the first `n` rows give.
pub open spec fn message_count(rows: Seq<MessageRow>, n: int) -> nat
    decreases n,
{
    if n <= 0 || n > rows.len() {
        0
    } else {
        message_count(rows, n - 1) + row_messages(rows[n - 1])
    }
}

/// One message element.
pub open spec fn message_xml(id: int, role: Seq<char>, text: Seq<char>, use_cdata: bool) -> Seq<char> {
    "  <message id=\""@ + decimal(id as nat) + "\" role=\""@ + role + "\">"@ + (if use_cdata {
        cdata_wrapped(text)
    } else {
        xml_escaped(text, 0)
    }) + "</message>\n"@
}

/// The elements of one row; `top` is the id of the first message that it gives.
pub open spec fn row_xml(row: MessageRow, top: int, use_cdata: bool) -> Seq<char> {
    let user = message_text(row.content);
    let assistant = message_text(row.ia_response);
    (match user {
        Some(text) => message_xml(top, "user"@, text, use_cdata),
        None => Seq::empty(),
    }) + (match assistant {
        Some(text) => message_xml(
            if user is Some {
                top - 1
            } else {
                top
            },
            "assistant"@,
            text,
            use_cdata,
        ),
        None => Seq::empty(),
    })
}

/// The elements of the first `n` rows; ids go down from `top`, one per message.
pub open spec fn rows_xml(rows: Seq<MessageRow>, n: int, top: int, use_cdata: bool) -> Seq<char>
    decreases n,
{
    if n <= 0 || n > rows.len() {
        Seq::empty()
    } else {
        rows_xml(rows, n - 1, top, use_cdata) + row_xml(
            rows[n - 1],
            top - message_count(rows, n - 1),
            use_cdata,
        )
    }
}

/// The whole document: the messages in the order of the rows, the user's before the
/// assistant's, numbered downwards so that the last one has the id `start_id`.
pub open spec fn messages_xml(rows: Seq<MessageRow>, start_id: int, use_cdata: bool) -> Seq<char> {
    let total = message_count(rows, rows.len() as int);
    "<?xml version=\"1.0\" encoding=\"utf-8\"?>"@ + seq!['\n'] + "<messages>\n"@ + rows_xml(
        rows,
        rows.len() as int,
        start_id + total - 1,
        use_cdata,
    ) + "</messages>\n"@
}

fn field_text(field: &Option<String>) -> (text: Option<Vec<char>>)
    ensures
        match text {
            Some(v) => message_text(*field) == Some(v@),
            None => message_text(*field) is None,
        },
{
    match field {
        Some(s) => {
            let v = trimmed_chars(s.as_str());
            if v.len() > 0 {
                Some(v)
            } else {
                None
            }
        },
        None => None,
    }
}

fn count_messages(rows: &[MessageRow]) -> (total: u128)
    ensures
        total == message_count(rows@, rows@.len() as int),
        total <= 2 * rows@.len(),
{
    let mut total: u128 = 0;
    let mut n: usize = 0;
    while n < rows.len()
        invariant
            n <= rows.len(),
            total == message_count(rows@, n as int),
            total <= 2 * n,
        decreases rows.len() - n,
    {
        if field_text(&rows[n].content).is_some() {
            total += 1;
        }
        if field_text(&rows[n].ia_response).is_some() {
            total += 1;
        }
        n += 1;
    }
    total
}

fn append_message(out: &mut Vec<char>, id: u64, role: &str, text: &Vec<char>, use_cdata: bool)
    ensures
        final(out)@ == old(out)@ + message_xml(id as int, role@, text@, use_cdata),
{
    append_str(out, "  <message id=\"");
    append_decimal(out, id);
    append_str(out, "\" role=\"");
    append_str(out, role);
    append_str(out, "\">");
    if use_cdata {
        append_cdata(out, text);
    } else {
        append_xml_escaped(out, text);
    }
    append_str(out, "</message>\n");
    proof {
        assert(out@ =~= old(out)@ + message_xml(id as int, role@, text@, use_cdata));
    }
}

/// Appends the elements of one row, of which `remaining` messages are still to come, this
/// row's among them.
fn append_row(out: &mut Vec<char>, row: &MessageRow, start_id: u64, remaining: u128, use_cdata: bool) -> (given: u128)
    requires
        row_messages(*row) <= remaining,
        start_id + remaining - 1 <= u64::MAX,
    ensures
        given == row_messages(*row),
        final(out)@ == old(out)@ + row_xml(*row, start_id + remaining - 1, use_cdata),
{
    let mut given: u128 = 0;
    match field_text(&row.content) {
        Some(text) => {
            let id: u64 = start_id + ((remaining - 1) as u64);
            append_message(out, id, "user", &text, use_cdata);
            given += 1;
        },
        None => {
            proof {
                assert(out@ =~= old(out)@ + Seq::<char>::empty());
            }
        },
    }
    let ghost middle = out@;
    match field_text(&row.ia_response) {
        Some(text) => {
            let id: u64 = start_id + ((remaining - 1 - given) as u64);
            append_message(out, id, "assistant", &text, use_cdata);
            given += 1;
        },
        None => {
            proof {
                assert(out@ =~= middle + Seq::<char>::empty());
            }
        },
    }
    proof {
        assert(out@ =~= old(out)@ + row_xml(*row, start_id + remaining - 1, use_cdata));
    }
    given
}

/// The stored rows as an XML document. Messages that are empty or all white space are left
/// out; the others are numbered downwards, and the last one gets `start_id`.
pub fn format_messages_xml(rows: &[MessageRow], start_id: u64, use_cdata: bool) -> (xml: String)
    requires
        start_id + message_count(rows@, rows@.len() as int) - 1 <= u64::MAX,
    ensures
        xml@ == messages_xml(rows@, start_id as int, use_cdata),
{
    let total = count_messages(rows);
    let mut out: Vec<char> = Vec::new();
    append_str(&mut out, "<?xml version=\"1.0\" encoding=\"utf-8\"?>");
    out.push('\n');
    append_str(&mut out, "<messages>\n");
    let ghost head = out@;
    let ghost top = start_id + total - 1;
    let mut emitted: u128 = 0;
    let mut n: usize = 0;
    proof {
        assert(out@ =~= head + rows_xml(rows@, 0, top, use_cdata));
    }
    while n < rows.len()
        invariant
            n <= rows.len(),
            total == message_count(rows@, rows@.len() as int),
            emitted == message_count(rows@, n as int),
            emitted <= total,
            top == start_id + total - 1,
            top <= u64::MAX,
            out@ == head + rows_xml(rows@, n as int, top, use_cdata),
        decreases rows.len() - n,
    {
        let ghost before = out@;
        proof {
            count_grows(rows@, n as int + 1, rows@.len() as int);
        }
        let given = append_row(&mut out, &rows[n], start_id, total - emitted, use_cdata);
        proof {
            assert(out@ =~= head + rows_xml(rows@, n as int + 1, top, use_cdata));
        }
        emitted += given;
        n += 1;
    }
    append_str(&mut out, "</messages>\n");
    proof {
        assert(out@ =~= messages_xml(rows@, start_id as int, use_cdata));
    }
    string_of(&out)
}

/// The count of messages does not go down as more rows are taken.
proof fn count_grows(rows: Seq<MessageRow>, n: int, m: int)
    requires
        0 <= n <= m <= rows.len(),
    ensures
        message_count(rows, n) <= message_count(rows, m),
    decreases m - n,
{
    if n < m {
        count_grows(rows, n, m - 1);
    }
}

} // verus!
