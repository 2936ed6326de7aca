//! A document read from a file could not be deserialized.

use vstd::prelude::*;

verus! {

/// `text` as its debug form shows it: between double quotes, with what
/// cannot stand there escaped.
pub uninterp spec fn debug_text(text: Seq<char>) -> Seq<char>;

/// Calls `format!` with `{:?}`, that is `Debug` for `str`. Assumed: the
/// text that it gives depends on the characters of `text` alone.
#[verifier::external_body]
fn debug_form(text: &str) -> (shown: String)
    ensures
        shown@ == debug_text(text@),
{
    format!("{:?}", text)
}

/// The document in the file `filename` could not be deserialized.
#[derive(Debug)]
pub struct FileDeserializeError {
    pub filename: String,
}

impl FileDeserializeError {
    /// The text that the error is reported with.
    pub open spec fn message_text(self) -> Seq<char> {
        "Error while deserializing xml from file: "@ + debug_text(self.filename@)
    }

    /// The text that the error is reported with.
    pub fn message(&self) -> (text: String)
        ensures
            text@ == self.message_text(),
    {
        let mut text = "Error while deserializing xml from file: ".to_owned();
        text.append(debug_form(self.filename.as_str()).as_str());
        text
    }

    /// The error for the file `filename`.
    pub fn new(filename: String) -> (error: Self)
        ensures
            error == (FileDeserializeError { filename }),
    {
        Self { filename }
    }
}

} // verus!
