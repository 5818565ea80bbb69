//! The system prompts that the handlers hand to the models.
use vstd::prelude::*;

verus! {

/// The three prompt texts.
pub struct GeminiPrompt {
    pub html: String,
    pub thinking: String,
    pub think_and_format: String,
}

/// Which prompt is asked for.
#[derive(Clone, Copy, Debug, PartialEq, Eq)]
pub enum Prompt {
    Html,
    Thinking,
    ThinkAndFormat,
}

impl GeminiPrompt {
    /// The text that `prompt` names.
    pub open spec fn text_of(&self, prompt: Prompt) -> Seq<char> {
        match prompt {
            Prompt::Html => self.html@,
            Prompt::Thinking => self.thinking@,
            Prompt::ThinkAndFormat => self.think_and_format@,
        }
    }

    /// A set of prompts with the given texts.
    pub fn new(html: String, thinking: String, think_and_format: String) -> (prompts: GeminiPrompt)
        ensures
            prompts.html == html,
            prompts.thinking == thinking,
            prompts.think_and_format == think_and_format,
    {
        GeminiPrompt { html, thinking, think_and_format }
    }

    /// A copy of the text that `prompt` names.
    pub fn get(&self, prompt: Prompt) -> (text: String)
        ensures
            text@ == self.text_of(prompt),
    {
        match prompt {
            Prompt::Html => self.html.clone(),
            Prompt::Thinking => self.thinking.clone(),
            Prompt::ThinkAndFormat => self.think_and_format.clone(),
        }
    }
}

} // verus!
