//! What can go wrong while a program or a goal is turned into terms.

use vstd::prelude::*;

verus! {

/// A failure to derive terms from text. Both kinds carry the message of the
/// collaborator that reported them.
#[derive(Debug, PartialEq, Eq)]
pub enum ChalkError {
    /// The text is not well-formed.
    Syntax(String),
    /// The text is well-formed but does not denote a program or goal: an
    /// unknown name, a wrong number of arguments, an ill-formed binder.
    Lowering(String),
}

impl ChalkError {
    /// The message, whichever the kind.
    pub open spec fn message(self) -> Seq<char> {
        match self {
            ChalkError::Syntax(text) => text@,
            ChalkError::Lowering(text) => text@,
        }
    }

    /// A copy of the message.
    pub fn error_text(&self) -> (text: String)
        ensures
            text@ == self.message(),
    {
        match self {
            ChalkError::Syntax(text) => text.clone(),
            ChalkError::Lowering(text) => text.clone(),
        }
    }
}

} // verus!
