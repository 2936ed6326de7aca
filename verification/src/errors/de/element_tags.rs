//! A start tag and the end tag that closed it do not agree.

use vstd::prelude::*;
use crate::de::event::Name;

verus! {

/// The element opened as `start_name` was closed as `end_name`.
#[derive(Debug)]
pub struct ElementTagsError {
    pub start_name: Name,
    pub end_name: Name,
}

impl ElementTagsError {
    /// The text that the error is reported with.
    pub open spec fn message_text(self) -> Seq<char> {
        "Wrong element tags: <"@ + self.start_name.local_name@ + "> ... </"@ + self.end_name.local_name@ + ">"@
    }

    /// The text that the error is reported with.
    pub fn message(&self) -> (text: String)
        ensures
            text@ == self.message_text(),
    {
        let mut text = "Wrong element tags: <".to_owned();
        text.append(self.start_name.local_name.as_str());
        text.append("> ... </");
        text.append(self.end_name.local_name.as_str());
        text.append(">");
        text
    }

    /// The error for a start tag and the end tag that met it.
    pub fn new(start_name: Name, end_name: Name) -> (error: Self)
        ensures
            error == (ElementTagsError { start_name, end_name }),
    {
        Self { start_name, end_name }
    }
}

} // verus!
