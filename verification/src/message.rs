//! What passes between the consumer and the generation worker: prompt
//! identifiers, the messages that the worker emits, and the generator's mode.

use vstd::prelude::*;

verus! {

/// Identifies one submitted prompt. Later submissions get larger values.
///
/// The default identifier, with value 0, is the identifier of no prompt: the
/// first prompt that is submitted gets 1.
#[derive(Clone, Copy, Debug, PartialEq, Eq, Hash, Structural)]
pub struct PromptId {
    pub value: u64,
}

impl View for PromptId {
    type V = nat;

    open spec fn view(&self) -> nat {
        self.value as nat
    }
}

/// The identifier that stands for "no prompt sent yet".
impl Default for PromptId {
    fn default() -> (id: PromptId)
        ensures
            id@ == 0,
    {
        PromptId { value: 0 }
    }
}

/// What the worker emits: a fragment of the reply to a prompt, or the notice
/// that generation failed.
#[derive(Debug, PartialEq, Eq)]
pub enum Message {
    Token(PromptId, String),
    Error(String),
}

/// A message as a plain value.
pub enum MessageView {
    Token(nat, Seq<char>),
    Error(Seq<char>),
}

impl MessageView {
    /// The prompt that a fragment belongs to; an error notice names none.
    pub open spec fn prompt(self) -> Option<nat> {
        match self {
            MessageView::Token(id, _) => Some(id),
            MessageView::Error(_) => None,
        }
    }
}

impl View for Message {
    type V = MessageView;

    open spec fn view(&self) -> MessageView {
        match *self {
            Message::Token(id, text) => MessageView::Token(id@, text@),
            Message::Error(text) => MessageView::Error(text@),
        }
    }
}

/// Selects how the generation engine is set up. A generator keeps the mode
/// that it was made with.
#[derive(Clone, Copy, Debug, PartialEq, Eq, Hash, Structural)]
pub enum GeneratorMode {
    Careful,
    Creative,
    Deranged,
}

impl Default for GeneratorMode {
    fn default() -> (mode: GeneratorMode)
        ensures
            mode == GeneratorMode::Careful,
    {
        GeneratorMode::Careful
    }
}

impl GeneratorMode {
    /// The mode's name as shown to the user.
    pub open spec fn name(self) -> Seq<char> {
        match self {
            GeneratorMode::Careful => "Careful"@,
            GeneratorMode::Creative => "Creative"@,
            GeneratorMode::Deranged => "Deranged"@,
        }
    }

    /// The mode's name as shown to the user.
    pub fn description(&self) -> (text: &'static str)
        ensures
            text@ == self.name(),
    {
        match self {
            GeneratorMode::Careful => "Careful",
            GeneratorMode::Creative => "Creative",
            GeneratorMode::Deranged => "Deranged",
        }
    }
}

} // verus!
