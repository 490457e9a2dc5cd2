//! The payload of one node: the label of the edge that leads to it and the
//! prompt shown when it becomes current.

use vstd::prelude::*;
use crate::text::text_of;

verus! {

/// What a node carries. `answer` is the text of the choice that leads here;
/// `question` is the prompt shown on arrival. A node without a question ends
/// the dialogue.
#[derive(Debug)]
pub struct AnswerAndFollowUp {
    pub answer: Option<String>,
    pub question: Option<String>,
}

impl AnswerAndFollowUp {
    /// The label as a sequence of characters.
    pub open spec fn label(&self) -> Option<Seq<char>> {
        text_of(self.answer)
    }

    /// The prompt as a sequence of characters.
    pub open spec fn prompt(&self) -> Option<Seq<char>> {
        text_of(self.question)
    }

    /// A node reached by the choice `answer`, with no prompt yet.
    pub fn new(answer: &str) -> (item: Self)
        ensures
            item.label() == Some(answer@),
            item.prompt().is_none(),
    {
        Self { answer: Some(answer.to_owned()), question: None }
    }

    /// A node that no choice leads to: neither label nor prompt.
    pub fn unlabelled() -> (item: Self)
        ensures
            item.label().is_none(),
            item.prompt().is_none(),
    {
        Self { answer: None, question: None }
    }
}

} // verus!
