//! What the small commands say.
use vstd::prelude::*;
use vstd::string::StringExecFns;
use crate::text::{append_str, string_of};

verus! {

/// The greeting of the bot in the given version.
pub open spec fn greeting_of(version: Seq<char>) -> Seq<char> {
    "Hello! I'm TScrapingBot v"@ + version
        + ", your Telegram assistant for web scraping and artificial intelligence. Use /help to see my commands."@
}

/// The answer to the start command.
pub fn greeting(version: &str) -> (text: String)
    ensures
        text@ == greeting_of(version@),
{
    let mut out: Vec<char> = Vec::new();
    append_str(&mut out, "Hello! I'm TScrapingBot v");
    append_str(&mut out, version);
    append_str(
        &mut out,
        ", your Telegram assistant for web scraping and artificial intelligence. Use /help to see my commands.",
    );
    proof {
        assert(out@ =~= greeting_of(version@));
    }
    string_of(&out)
}

/// What is said after a reset, and whether the liveness signaler is shut down before it is
/// said.
pub struct ResetReply {
    pub text: String,
    pub shutdown_first: bool,
}

/// What is said after a reset that changed `affected` rows, or that failed.
pub open spec fn reset_text(affected: Option<u64>) -> Seq<char> {
    match affected {
        Some(rows) => if rows > 0 {
            "Chat reset successfully."@
        } else {
            "The chat has already been reset."@
        },
        None => "Error clearing messages."@,
    }
}

/// The answer to the reset command, given how many rows were cleared, or that clearing
/// failed. Where nothing was left to clear, the signaler is left to end with its handle.
pub fn reset_reply(affected: Option<u64>) -> (reply: ResetReply)
    ensures
        reply.text@ == reset_text(affected),
        reply.shutdown_first == (affected != Some(0u64)),
{
    match affected {
        Some(rows) => {
            if rows > 0 {
                ResetReply { text: String::from_str("Chat reset successfully."), shutdown_first: true }
            } else {
                ResetReply {
                    text: String::from_str("The chat has already been reset."),
                    shutdown_first: false,
                }
            }
        },
        None => ResetReply { text: String::from_str("Error clearing messages."), shutdown_first: true },
    }
}

/// The note on an error that the user is shown.
pub open spec fn error_note_of(error: Seq<char>) -> Seq<char> {
    "Error: "@ + error
}

/// The note on an error that the user is shown.
pub fn error_note(error: &str) -> (text: String)
    ensures
        text@ == error_note_of(error@),
{
    let mut out: Vec<char> = Vec::new();
    append_str(&mut out, "Error: ");
    append_str(&mut out, error);
    string_of(&out)
}

} // verus!
