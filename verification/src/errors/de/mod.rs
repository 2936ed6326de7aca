//! Why a deserialization pass failed.

pub mod bad_namespace;
pub mod element_name;
pub mod element_tags;
pub mod file;
pub mod peek;
pub mod string;
pub mod unexpected_event;

pub use bad_namespace::BadNamespaceError;
pub use element_name::ElementNameError;
pub use element_tags::ElementTagsError;
pub use file::FileDeserializeError;
pub use peek::CouldNotPeekError;
pub use string::StringDeserializeError;
pub use unexpected_event::UnexpectedEventError;

use vstd::prelude::*;
use crate::errors::string::StringError;

verus! {

/// The failure underneath a [`DeserializeError`].
#[derive(Debug)]
pub enum Cause {
    /// The parser could not produce the next event.
    Reader(xml::reader::Error),
    /// The lookahead was empty right after it was filled.
    CouldNotPeek(CouldNotPeekError),
    /// The next event was not of the kind that the call asked for.
    UnexpectedEvent(UnexpectedEventError),
    /// An element was closed under another name than it was opened with.
    ElementTags(ElementTagsError),
    /// The traversal gave up with a message of its own.
    Message(StringError),
}

/// Calls `to_string` on the error, that is its `Display`. Nothing is
/// assumed of the text.
#[verifier::external_body]
fn reader_error_text(error: &xml::reader::Error) -> (text: String) {
    error.to_string()
}

impl Cause {
    /// The text that the cause is reported with, where the library words
    /// it; the parser words its own errors.
    pub open spec fn message_text(self) -> Option<Seq<char>> {
        match self {
            Cause::Reader(_) => None,
            Cause::CouldNotPeek(error) => Some(error.message_text()),
            Cause::UnexpectedEvent(error) => Some(error.message_text()),
            Cause::ElementTags(error) => Some(error.message_text()),
            Cause::Message(error) => Some(error.message_text()),
        }
    }

    /// The text that the cause is reported with.
    pub fn message(&self) -> (text: String)
        ensures
            self.message_text() matches Some(worded) ==> text@ == worded,
    {
        match self {
            Cause::Reader(error) => reader_error_text(error),
            Cause::CouldNotPeek(error) => error.message(),
            Cause::UnexpectedEvent(error) => error.message(),
            Cause::ElementTags(error) => error.message(),
            Cause::Message(error) => error.message(),
        }
    }
}

/// A deserialization pass failed; `cause` says why.
#[derive(Debug)]
pub struct DeserializeError {
    pub cause: Cause,
}

impl DeserializeError {
    /// The text that the error is reported with.
    pub fn message(&self) -> (text: String)
        ensures
            text@ == "Error while deserializing xml"@,
    {
        "Error while deserializing xml".to_owned()
    }

    /// The failed pass with `cause` underneath.
    pub fn new(cause: Cause) -> (error: Self)
        ensures
            error == (DeserializeError { cause }),
    {
        DeserializeError { cause }
    }
}

} // verus!
