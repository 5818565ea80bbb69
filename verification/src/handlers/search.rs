//! What the search command decides and composes: the address of the page to fetch, the
//! conversation for the model, what is stored, and what is said when a step fails.
use vstd::prelude::*;
use vstd::string::StringExecFns;
use crate::handlers::chat::{push_row, push_turn, turns_of, ChatTurn, Role, TurnModel};
use crate::text::{
    append_str, chars_of, contains_text, content_start, includes, is_white_space, lowercase_of,
    occurs_at, starts_at, string_of, to_lowercase, trim_bounds, trimmed, white_space,
};
use crate::xml::MessageRow;

verus! {

/// The first index at or after `i` whose character is white space; the length where there
/// is none.
pub open spec fn word_end(s: Seq<char>, i: int) -> int
    decreases s.len() - i,
{
    if i < 0 || i >= s.len() || is_white_space(s[i]) {
        i
    } else {
        word_end(s, i + 1)
    }
}

/// The first word of `s`: its first run of characters that are not white space.
pub open spec fn first_word(s: Seq<char>) -> Option<Seq<char>> {
    let lo = content_start(s, 0);
    if 0 <= lo < s.len() {
        Some(s.subrange(lo, word_end(s, lo)))
    } else {
        None
    }
}

/// `word` begins like the address of a web page.
pub open spec fn is_web_address(word: Seq<char>) -> bool {
    occurs_at(word, "http://"@, 0) || occurs_at(word, "https://"@, 0)
}

/// `s` from `i` on with each `&` written as `%26`.
pub open spec fn ampersands_encoded(s: Seq<char>, i: int) -> Seq<char>
    decreases s.len() - i,
{
    if i < 0 || i >= s.len() {
        Seq::empty()
    } else if s[i] == '&' {
        seq!['%', '2', '6'] + ampersands_encoded(s, i + 1)
    } else {
        seq![s[i]] + ampersands_encoded(s, i + 1)
    }
}

/// The address at which the scraping service fetches `page` for the holder of `token`.
pub open spec fn scrape_address(token: Seq<char>, page: Seq<char>) -> Seq<char> {
    "http://api.scrape.do/?token="@ + token + "&url="@ + ampersands_encoded(page, 0)
}

/// The address to fetch for a search: that of the scraping service, for the first word of
/// the text, provided that this word is the address of a web page.
pub open spec fn search_address(token: Seq<char>, text: Seq<char>) -> Option<Seq<char>> {
    match first_word(text) {
        Some(word) => if is_web_address(word) {
            Some(scrape_address(token, word))
        } else {
            None
        },
        None => None,
    }
}

/// The address to fetch for a search, or nothing where the text does not begin with the
/// address of a web page.
pub fn search_url(scrapedo_token: &str, text: &str) -> (url: Option<String>)
    ensures
        match url {
            Some(address) => search_address(scrapedo_token@, text@) == Some(address@),
            None => search_address(scrapedo_token@, text@) is None,
        },
{
    let chars = chars_of(text);
    let (lo, _) = trim_bounds(&chars);
    if lo >= chars.len() {
        return None;
    }
    let mut hi = lo;
    while hi < chars.len() && !white_space(chars[hi])
        invariant
            lo <= hi <= chars.len(),
            word_end(chars@, lo as int) == word_end(chars@, hi as int),
        decreases chars.len() - hi,
    {
        hi += 1;
    }
    let mut word: Vec<char> = Vec::new();
    let mut i = lo;
    while i < hi
        invariant
            lo <= i <= hi <= chars.len(),
            word@ == chars@.subrange(lo as int, i as int),
        decreases hi - i,
    {
        word.push(chars[i]);
        proof {
            assert(word@ =~= chars@.subrange(lo as int, i as int + 1));
        }
        i += 1;
    }
    let plain = chars_of("http://");
    let secure = chars_of("https://");
    if !(starts_at(&word, &plain, 0) || starts_at(&word, &secure, 0)) {
        return None;
    }
    let mut out: Vec<char> = Vec::new();
    append_str(&mut out, "http://api.scrape.do/?token=");
    append_str(&mut out, scrapedo_token);
    append_str(&mut out, "&url=");
    let ghost head = out@;
    let mut k: usize = 0;
    proof {
        assert(out@ + ampersands_encoded(word@, 0) =~= head + ampersands_encoded(word@, 0));
    }
    while k < word.len()
        invariant
            k <= word.len(),
            out@ + ampersands_encoded(word@, k as int) == head + ampersands_encoded(word@, 0),
        decreases word.len() - k,
    {
        let ghost before = out@;
        let ghost rest = ampersands_encoded(word@, k as int);
        if word[k] == '&' {
            out.push('%');
            out.push('2');
            out.push('6');
        } else {
            out.push(word[k]);
        }
        proof {
            assert(out@ + ampersands_encoded(word@, k as int + 1) =~= before + rest);
        }
        k += 1;
    }
    proof {
        assert(out@ =~= scrape_address(scrapedo_token@, word@));
    }
    Some(string_of(&out))
}

/// The user's turn that states the request.
pub open spec fn request_turn(user_lang: Seq<char>, text: Seq<char>) -> Seq<char> {
    "Main lang is \""@ + user_lang + "\":\n\nUser prompt: "@ + text
}

/// The user's turn that hands over the fetched page.
pub open spec fn resource_turn(web_resource: Seq<char>) -> Seq<char> {
    "WebResource:\n"@ + web_resource
}

/// The turns of the rows from the last one back to the `n`-th, each row's user turn before
/// its assistant turn.
pub open spec fn turns_backwards(rows: Seq<MessageRow>, n: int) -> Seq<TurnModel>
    decreases rows.len() - n,
{
    if n < 0 || n >= rows.len() {
        Seq::empty()
    } else {
        turns_backwards(rows, n + 1) + crate::handlers::chat::row_turns(rows[n])
    }
}

/// The conversation for a search: the system prompt; the stored exchanges, oldest first,
/// where `newest_first` holds them newest first; the request; the fetched page.
pub open spec fn search_turns(
    system_prompt: Seq<char>,
    newest_first: Seq<MessageRow>,
    user_lang: Seq<char>,
    text: Seq<char>,
    web_resource: Seq<char>,
) -> Seq<TurnModel> {
    seq![TurnModel { role: Role::System, text: system_prompt }] + turns_backwards(newest_first, 0)
        + seq![
        TurnModel { role: Role::User, text: request_turn(user_lang, text) },
        TurnModel { role: Role::User, text: resource_turn(web_resource) },
    ]
}

/// The conversation for a search.
pub fn search_conversation(
    system_prompt: &str,
    newest_first: &[MessageRow],
    user_lang: &str,
    text: &str,
    web_resource: &str,
) -> (turns: Vec<ChatTurn>)
    ensures
        turns_of(turns@) == search_turns(
            system_prompt@,
            newest_first@,
            user_lang@,
            text@,
            web_resource@,
        ),
{
    let mut turns: Vec<ChatTurn> = Vec::new();
    push_turn(&mut turns, Role::System, String::from_str(system_prompt));
    let ghost head = turns_of(turns@);
    let mut n: usize = newest_first.len();
    proof {
        assert(turns_of(turns@) =~= head + turns_backwards(newest_first@, n as int));
    }
    while n > 0
        invariant
            n <= newest_first.len(),
            turns_of(turns@) == head + turns_backwards(newest_first@, n as int),
        decreases n,
    {
        n -= 1;
        push_row(&mut turns, &newest_first[n]);
        proof {
            assert(turns_of(turns@) =~= head + turns_backwards(newest_first@, n as int));
        }
    }
    let mut request: Vec<char> = Vec::new();
    append_str(&mut request, "Main lang is \"");
    append_str(&mut request, user_lang);
    append_str(&mut request, "\":\n\nUser prompt: ");
    append_str(&mut request, text);
    proof {
        assert(request@ =~= request_turn(user_lang@, text@));
    }
    push_turn(&mut turns, Role::User, string_of(&request));
    let mut resource: Vec<char> = Vec::new();
    append_str(&mut resource, "WebResource:\n");
    append_str(&mut resource, web_resource);
    push_turn(&mut turns, Role::User, string_of(&resource));
    proof {
        assert(turns_of(turns@) =~= search_turns(
            system_prompt@,
            newest_first@,
            user_lang@,
            text@,
            web_resource@,
        ));
    }
    turns
}

/// What is stored as the user's side of a search.
pub open spec fn stored_request_of(text: Seq<char>, web_resource: Seq<char>) -> Seq<char> {
    text + "\n\nWeb Resource:\n\n"@ + web_resource
}

/// What is stored as the user's side of a search: the request, then the fetched page.
pub fn stored_request(text: &str, web_resource: &str) -> (content: String)
    ensures
        content@ == stored_request_of(text@, web_resource@),
{
    let mut out: Vec<char> = Vec::new();
    append_str(&mut out, text);
    append_str(&mut out, "\n\nWeb Resource:\n\n");
    append_str(&mut out, web_resource);
    proof {
        assert(out@ =~= stored_request_of(text@, web_resource@));
    }
    string_of(&out)
}

/// A text in lower case speaks of parsing.
pub open spec fn speaks_of_parsing(lowered: Seq<char>) -> bool {
    includes(lowered, "parse"@) || includes(lowered, "parsing"@)
}

/// Whether an error text in lower case speaks of parsing.
pub fn mentions_parsing(lowered: &str) -> (found: bool)
    ensures
        found == speaks_of_parsing(lowered@),
{
    contains_text(lowered, "parse") || contains_text(lowered, "parsing")
}

/// Whether the chat service refused an answer because it could not parse it: its error
/// text, in lower case, speaks of parsing. Such an answer is formatted anew and sent again.
pub fn is_parse_error(error_text: &str) -> (found: bool)
    ensures
        found == speaks_of_parsing(lowercase_of(error_text@)),
{
    let lowered = to_lowercase(error_text);
    mentions_parsing(lowered.as_str())
}

/// The step of a search that failed.
pub enum SearchFailure {
    /// The request is empty or all white space.
    EmptyText,
    /// The sender is not known; the text says so.
    NoUser(String),
    /// The history could not be read.
    History,
    /// The request does not begin with the address of a web page.
    BadUrl,
    /// The page could not be fetched.
    Fetch,
    /// The model failed; the text is its error.
    Model(String),
    /// The exchange could not be stored.
    Store,
}

/// What the user is told.
pub open spec fn failure_text(failure: SearchFailure) -> Seq<char> {
    match failure {
        SearchFailure::EmptyText => "I can't reply to an empty message."@,
        SearchFailure::NoUser(message) => message@,
        SearchFailure::History => "Database error"@,
        SearchFailure::BadUrl => "Use a valid URL (http:// or https://)."@,
        SearchFailure::Fetch => "Search error."@,
        SearchFailure::Model(error) => "Error: "@ + error@ + "."@,
        SearchFailure::Store => "Database error (couldn't save message)."@,
    }
}

/// What the user is told when a step of a search fails.
pub fn failure_reply(failure: &SearchFailure) -> (text: String)
    ensures
        text@ == failure_text(*failure),
{
    match failure {
        SearchFailure::EmptyText => String::from_str("I can't reply to an empty message."),
        SearchFailure::NoUser(message) => message.clone(),
        SearchFailure::History => String::from_str("Database error"),
        SearchFailure::BadUrl => String::from_str("Use a valid URL (http:// or https://)."),
        SearchFailure::Fetch => String::from_str("Search error."),
        SearchFailure::Model(error) => {
            let mut out: Vec<char> = Vec::new();
            append_str(&mut out, "Error: ");
            append_str(&mut out, error.as_str());
            append_str(&mut out, ".");
            proof {
                assert(out@ =~= failure_text(*failure));
            }
            string_of(&out)
        },
        SearchFailure::Store => String::from_str("Database error (couldn't save message)."),
    }
}

/// Whether the request is empty or all white space.
pub fn is_blank(text: &str) -> (blank: bool)
    ensures
        blank == (trimmed(text@).len() == 0),
{
    let chars = chars_of(text);
    let (lo, hi) = trim_bounds(&chars);
    lo == hi
}

} // verus!
