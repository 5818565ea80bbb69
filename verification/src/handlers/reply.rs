//! How an answer is sent: as a reply or as a plain message.
use vstd::prelude::*;

verus! {

/// The message to which an answer replies.
#[derive(Clone, Copy, Debug, PartialEq, Eq, Structural)]
pub struct ReplyTarget {
    pub message_id: i32,
    /// Whether the answer is sent even where that message is gone.
    pub allow_sending_without_reply: bool,
}

/// How an answer is sent.
#[derive(Clone, Copy, Debug, PartialEq, Eq, Structural)]
pub struct ReplyPlan {
    /// The message to which it replies, where it is sent as a reply.
    pub reply_to: Option<ReplyTarget>,
    /// Whether it is sent as HTML.
    pub parse_html: bool,
    /// The forum thread into which it is sent, where it is sent into one.
    pub thread_id: Option<i32>,
}

/// How an answer to the message `message_id` is sent. In a chat that has a title, a group
/// or a channel, the answer is a reply to the message and goes into the message's thread;
/// in any other chat it is a plain message.
pub fn reply_plan(
    is_group_like: bool,
    message_id: i32,
    thread_id: Option<i32>,
    allow_sending_without_reply: bool,
    parse_html: bool,
) -> (plan: ReplyPlan)
    ensures
        plan == (if is_group_like {
            ReplyPlan {
                reply_to: Some(ReplyTarget { message_id, allow_sending_without_reply }),
                parse_html,
                thread_id,
            }
        } else {
            ReplyPlan { reply_to: None, parse_html, thread_id: None }
        }),
{
    if is_group_like {
        ReplyPlan {
            reply_to: Some(ReplyTarget { message_id, allow_sending_without_reply }),
            parse_html,
            thread_id,
        }
    } else {
        ReplyPlan { reply_to: None, parse_html, thread_id: None }
    }
}

} // verus!
