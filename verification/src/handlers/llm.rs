//! The two calls to the chat models around an answer: the reasoning step, which is tried
//! twice, and the main model.
use vstd::prelude::*;
use vstd::string::StringExecFns;
use crate::handlers::chat::{answer_of, answer_text, push_turn, turns_of, ChatTurn, Role, TurnModel};
use crate::handlers::image::MessageContent;
use crate::text::{append_str, string_of};

verus! {

/// What a call to a model gave.
pub enum ModelReply {
    /// The content of the first choice's message.
    Content(MessageContent),
    /// The call failed; the text is the error.
    Failed(String),
}

/// What is done after an attempt of the reasoning step.
pub enum ReasoningStep {
    /// The step is over, with this result.
    Done(Option<String>),
    /// The model is asked once more.
    Retry,
}

/// The result of a step, as mathematics.
pub enum StepModel {
    Done(Option<Seq<char>>),
    Retry,
}

impl View for ReasoningStep {
    type V = StepModel;

    open spec fn view(&self) -> StepModel {
        match self {
            ReasoningStep::Done(Some(text)) => StepModel::Done(Some(text@)),
            ReasoningStep::Done(None) => StepModel::Done(None),
            ReasoningStep::Retry => StepModel::Retry,
        }
    }
}

/// How often the reasoning model is asked at most.
pub const REASONING_ATTEMPTS: u32 = 2;

/// What follows from the reply to attempt number `attempt`, counted from 0. A text is the
/// result, without the white space at its ends. A failed call ends the step without result.
/// A reply that is no text is asked for again, and after the last attempt the prompt itself
/// is the result. Beyond the last attempt there is no result.
pub open spec fn reasoning_outcome(attempt: u32, reply: ModelReply, base_prompt: Seq<char>) -> StepModel {
    if attempt >= REASONING_ATTEMPTS {
        StepModel::Done(None)
    } else {
        match reply {
            ModelReply::Content(MessageContent::Text(text)) => StepModel::Done(
                Some(answer_of(MessageContent::Text(text))),
            ),
            ModelReply::Content(_) => if attempt == REASONING_ATTEMPTS - 1 {
                StepModel::Done(Some(base_prompt))
            } else {
                StepModel::Retry
            },
            ModelReply::Failed(_) => StepModel::Done(None),
        }
    }
}

/// What follows from the reply to attempt number `attempt` of the reasoning step.
pub fn run_reasoning_step(attempt: u32, reply: &ModelReply, base_prompt: &str) -> (step: ReasoningStep)
    ensures
        step@ == reasoning_outcome(attempt, *reply, base_prompt@),
{
    if attempt >= REASONING_ATTEMPTS {
        return ReasoningStep::Done(None);
    }
    match reply {
        ModelReply::Content(content) => match content {
            MessageContent::Text(_) => ReasoningStep::Done(Some(answer_text(content))),
            _ => {
                if attempt == REASONING_ATTEMPTS - 1 {
                    ReasoningStep::Done(Some(String::from_str(base_prompt)))
                } else {
                    ReasoningStep::Retry
                }
            },
        },
        ModelReply::Failed(_) => ReasoningStep::Done(None),
    }
}

/// The user's turn of the reasoning step.
pub open spec fn reasoning_request(base_prompt: Seq<char>) -> Seq<char> {
    "Full prompt+history:\n\n"@ + base_prompt
}

/// The conversation of the reasoning step: the system prompt, then the prompt with its
/// history.
pub fn reasoning_conversation(system_prompt: &str, base_prompt: &str) -> (turns: Vec<ChatTurn>)
    ensures
        turns_of(turns@) == seq![
            TurnModel { role: Role::System, text: system_prompt@ },
            TurnModel { role: Role::User, text: reasoning_request(base_prompt@) },
        ],
{
    let mut turns: Vec<ChatTurn> = Vec::new();
    push_turn(&mut turns, Role::System, String::from_str(system_prompt));
    let mut request: Vec<char> = Vec::new();
    append_str(&mut request, "Full prompt+history:\n\n");
    append_str(&mut request, base_prompt);
    push_turn(&mut turns, Role::User, string_of(&request));
    proof {
        assert(turns_of(turns@) =~= seq![
            TurnModel { role: Role::System, text: system_prompt@ },
            TurnModel { role: Role::User, text: reasoning_request(base_prompt@) },
        ]);
    }
    turns
}

/// The conversation of the main model: the system prompt, then the prompt.
pub fn main_conversation(system_prompt: &str, prompt_for_main: &str) -> (turns: Vec<ChatTurn>)
    ensures
        turns_of(turns@) == seq![
            TurnModel { role: Role::System, text: system_prompt@ },
            TurnModel { role: Role::User, text: prompt_for_main@ },
        ],
{
    let mut turns: Vec<ChatTurn> = Vec::new();
    push_turn(&mut turns, Role::System, String::from_str(system_prompt));
    push_turn(&mut turns, Role::User, String::from_str(prompt_for_main));
    proof {
        assert(turns_of(turns@) =~= seq![
            TurnModel { role: Role::System, text: system_prompt@ },
            TurnModel { role: Role::User, text: prompt_for_main@ },
        ]);
    }
    turns
}

/// The error text of the main model.
pub open spec fn main_model_error(error: Seq<char>) -> Seq<char> {
    "Main model error: "@ + error
}

/// What the main model gave: its text without the white space at its ends, an empty text
/// where its message is no text, and an error where the call failed.
pub fn run_main_model(reply: &ModelReply) -> (outcome: Result<String, String>)
    ensures
        match outcome {
            Ok(text) => *reply matches ModelReply::Content(content) && text@ == answer_of(content),
            Err(message) => *reply matches ModelReply::Failed(error) && message@
                == main_model_error(error@),
        },
{
    match reply {
        ModelReply::Content(content) => Ok(answer_text(content)),
        ModelReply::Failed(error) => {
            let mut out: Vec<char> = Vec::new();
            append_str(&mut out, "Main model error: ");
            append_str(&mut out, error.as_str());
            Err(string_of(&out))
        },
    }
}

} // verus!
