//! The lookahead was empty where it cannot be.

use vstd::prelude::*;

verus! {

/// The lookahead was empty right after it was filled.
#[derive(Debug, Default)]
pub struct CouldNotPeekError {}

impl CouldNotPeekError {
    /// The text that the error is reported with.
    pub open spec fn message_text(self) -> Seq<char> {
        "could not peek next event"@
    }

    /// The text that the error is reported with.
    pub fn message(&self) -> (text: String)
        ensures
            text@ == self.message_text(),
    {
        "could not peek next event".to_owned()
    }
}

} // verus!
