//! A document held in a string could not be deserialized.

use vstd::prelude::*;
use crate::errors::de::DeserializeError;

verus! {

/// The document in `text` could not be deserialized; `cause` is the failed
/// pass, where there was one.
#[derive(Debug)]
pub struct StringDeserializeError {
    pub text: String,
    pub cause: Option<DeserializeError>,
}

impl StringDeserializeError {
    /// The text that the error is reported with.
    pub open spec fn message_text(self) -> Seq<char> {
        "Error while deserializing xml from string: "@ + self.text@
    }

    /// The text that the error is reported with.
    pub fn message(&self) -> (text: String)
        ensures
            text@ == self.message_text(),
    {
        let mut text = "Error while deserializing xml from string: ".to_owned();
        text.append(self.text.as_str());
        text
    }

    /// The error for the document `text`, without a cause.
    pub fn new(text: String) -> (error: Self)
        ensures
            error == (StringDeserializeError { text, cause: None }),
    {
        Self { text, cause: None }
    }
}

} // verus!
