//! A failure that is known by its text only.

use vstd::prelude::*;

verus! {

/// An error message handed over by the traversal.
#[derive(Debug)]
pub struct StringError(pub String);

impl StringError {
    /// The text that the error is reported with.
    pub open spec fn message_text(self) -> Seq<char> {
        "Error: '"@ + self.0@ + "'"@
    }

    /// The text that the error is reported with.
    pub fn message(&self) -> (text: String)
        ensures
            text@ == self.message_text(),
    {
        let mut text = "Error: '".to_owned();
        text.append(self.0.as_str());
        text.append("'");
        text
    }

    /// The error with the message `text`.
    pub fn new(text: String) -> (error: Self)
        ensures
            error.0 == text,
    {
        Self(text)
    }
}

} // verus!
