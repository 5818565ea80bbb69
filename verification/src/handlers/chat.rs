//! Conversations as they are handed to a chat model.
use vstd::prelude::*;
use crate::handlers::image::MessageContent;
use crate::text::{string_of, trimmed, trimmed_chars};
use crate::xml::MessageRow;

verus! {

/// Who speaks in a turn.
#[derive(Clone, Copy, Debug, PartialEq, Eq, Structural)]
pub enum Role {
    System,
    User,
    Assistant,
}

/// One turn of a conversation.
pub struct ChatTurn {
    pub role: Role,
    pub text: String,
}

/// A turn, as mathematics.
pub struct TurnModel {
    pub role: Role,
    pub text: Seq<char>,
}

/// What the turns stand for.
pub open spec fn turns_of(turns: Seq<ChatTurn>) -> Seq<TurnModel> {
    Seq::new(turns.len(), |i: int| TurnModel { role: turns[i].role, text: turns[i].text@ })
}

/// The turns that one stored exchange gives: the user's, where there is one, then the
/// assistant's, where there is one.
pub open spec fn row_turns(row: MessageRow) -> Seq<TurnModel> {
    (match row.content {
        Some(text) => seq![TurnModel { role: Role::User, text: text@ }],
        None => Seq::empty(),
    }) + (match row.ia_response {
        Some(text) => seq![TurnModel { role: Role::Assistant, text: text@ }],
        None => Seq::empty(),
    })
}

/// The turns of the first `n` rows, in the order of the rows.
pub open spec fn history_turns(rows: Seq<MessageRow>, n: int) -> Seq<TurnModel>
    decreases n,
{
    if n <= 0 || n > rows.len() {
        Seq::empty()
    } else {
        history_turns(rows, n - 1) + row_turns(rows[n - 1])
    }
}

/// Appends the turns of one stored exchange.
pub fn push_row(turns: &mut Vec<ChatTurn>, row: &MessageRow)
    ensures
        turns_of(final(turns)@) == turns_of(old(turns)@) + row_turns(*row),
{
    let ghost before = turns_of(turns@);
    match &row.content {
        Some(text) => {
            turns.push(ChatTurn { role: Role::User, text: text.clone() });
        },
        None => {},
    }
    match &row.ia_response {
        Some(text) => {
            turns.push(ChatTurn { role: Role::Assistant, text: text.clone() });
        },
        None => {},
    }
    proof {
        assert(turns_of(turns@) =~= before + row_turns(*row));
    }
}

/// Appends one turn.
pub fn push_turn(turns: &mut Vec<ChatTurn>, role: Role, text: String)
    ensures
        turns_of(final(turns)@) == turns_of(old(turns)@).push(TurnModel { role, text: text@ }),
{
    let ghost before = turns_of(turns@);
    turns.push(ChatTurn { role, text });
    proof {
        assert(turns_of(turns@) =~= before.push(TurnModel { role, text: text@ }));
    }
}

/// Appends the turns of the stored exchanges, in the order of the rows.
pub fn push_history(turns: &mut Vec<ChatTurn>, rows: &[MessageRow])
    ensures
        turns_of(final(turns)@) == turns_of(old(turns)@) + history_turns(
            rows@,
            rows@.len() as int,
        ),
{
    let mut n: usize = 0;
    proof {
        assert(turns_of(turns@) =~= turns_of(old(turns)@) + history_turns(rows@, 0));
    }
    while n < rows.len()
        invariant
            n <= rows.len(),
            turns_of(turns@) == turns_of(old(turns)@) + history_turns(rows@, n as int),
        decreases rows.len() - n,
    {
        push_row(turns, &rows[n]);
        proof {
            assert(turns_of(turns@) =~= turns_of(old(turns)@) + history_turns(rows@, n as int + 1));
        }
        n += 1;
    }
}

/// The answer that is taken from a model's message: its text without the white space at
/// its ends; nothing where the message is not one text.
pub open spec fn answer_of(content: MessageContent) -> Seq<char> {
    match content {
        MessageContent::Text(text) => trimmed(text@),
        _ => Seq::empty(),
    }
}

/// The answer that is taken from a model's message.
pub fn answer_text(content: &MessageContent) -> (answer: String)
    ensures
        answer@ == answer_of(*content),
{
    match content {
        MessageContent::Text(text) => {
            let inner = trimmed_chars(text.as_str());
            string_of(&inner)
        },
        _ => String::new(),
    }
}

} // verus!
