//! Who sent a message, and in which conversation.
use vstd::prelude::*;
use vstd::string::StringExecFns;

verus! {

/// The sender of a message.
pub struct Sender {
    pub id: u64,
    pub language_code: Option<String>,
}

/// What is read of a message to tell whose it is.
pub struct MessageOrigin {
    /// The sender, where the message has one.
    pub from: Option<Sender>,
    /// The forum thread, where the message stands in one.
    pub thread_id: Option<i32>,
    /// The chat.
    pub chat_id: i64,
}

/// The language that is taken where the sender has none.
pub open spec fn default_language() -> Seq<char> {
    "en"@
}

/// The message for a message without sender.
pub open spec fn no_sender_message() -> Seq<char> {
    "The user could not be identified."@
}

/// The identifier of a sender as the history stores it: the same number where it is below
/// 2^63, and the number less 2^64 from there on.
pub open spec fn stored_id(id: u64) -> i64 {
    if id <= i64::MAX as u64 {
        id as i64
    } else {
        (id - 0x1_0000_0000_0000_0000) as i64
    }
}

/// The conversation to which a message belongs: its thread where it has one, else its chat.
pub open spec fn conversation_of(msg: MessageOrigin) -> i64 {
    match msg.thread_id {
        Some(thread) => thread as i64,
        None => msg.chat_id,
    }
}

/// The sender's identifier, the sender's language and the conversation of a message; an
/// error where the message has no sender.
pub fn extract_user_info(msg: &MessageOrigin) -> (info: Result<(i64, String, i64), String>)
    ensures
        match info {
            Ok((user_id, language, conversation)) => {
                &&& msg.from matches Some(sender)
                &&& user_id == stored_id(sender.id)
                &&& language@ == (match sender.language_code {
                    Some(code) => code@,
                    None => default_language(),
                })
                &&& conversation == conversation_of(*msg)
            },
            Err(message) => msg.from is None && message@ == no_sender_message(),
        },
{
    let sender = match &msg.from {
        Some(sender) => sender,
        None => {
            return Err(String::from_str("The user could not be identified."));
        },
    };
    let user_id: i64 = if sender.id <= 0x7fff_ffff_ffff_ffff {
        sender.id as i64
    } else {
        ((sender.id - 0x8000_0000_0000_0000) as i64) + i64::MIN
    };
    let language = match &sender.language_code {
        Some(code) => code.clone(),
        None => String::from_str("en"),
    };
    let conversation: i64 = match msg.thread_id {
        Some(thread) => thread as i64,
        None => msg.chat_id,
    };
    Ok((user_id, language, conversation))
}

} // verus!
