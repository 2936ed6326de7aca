//! Deserializing a whole document into a value.

use vstd::prelude::*;
use vstd::string::StringSliceAdditionalSpecFns;
use crate::de::deserializer::{normalizing_options, Deserializer};
use crate::de::model::CursorView;
use crate::de::source::document_events;
use crate::de::stream::surfaced;
use crate::errors::de::{Cause, DeserializeError, StringDeserializeError};
use crate::errors::string::StringError;

verus! {

/// A value that can be read from the events of a document.
pub trait YaDeserialize: Sized {
    /// Reads the value from `reader`, or says why it cannot be read.
    fn deserialize(reader: &mut Deserializer<'_>) -> (result: Result<Self, String>)
        requires
            old(reader).wf(),
    ;
}

/// The cursor that a pass over `document` starts with.
pub open spec fn first_view(document: Seq<u8>) -> CursorView {
    CursorView { depth: 0, peeked: None, incoming: surfaced(document_events(document, normalizing_options())) }
}

/// What a pass gives for what the value's own reading gave: the value, or
/// the message as the cause of a failed pass.
pub open spec fn pass_result<T>(read: Result<T, String>) -> Result<T, DeserializeError> {
    match read {
        Ok(value) => Ok(value),
        Err(message) => Err(DeserializeError { cause: Cause::Message(StringError(message)) }),
    }
}

/// Whether `result` is what a pass over the text `text` gives where a pass
/// over its bytes gave `pass`: the value, or a failure that holds the text
/// and the failed pass as its cause.
pub open spec fn is_text_result<T>(
    text: Seq<char>,
    pass: Result<T, DeserializeError>,
    result: Result<T, StringDeserializeError>,
) -> bool {
    match pass {
        Ok(value) => result == Ok::<T, StringDeserializeError>(value),
        Err(cause) => result matches Err(failure) && failure.text@ == text && failure.cause == Some(cause),
    }
}

/// Wraps what the value's own reading gave as the result of a pass.
pub fn finish_pass<T>(read: Result<T, String>) -> (result: Result<T, DeserializeError>)
    ensures
        result == pass_result(read),
{
    match read {
        Ok(value) => Ok(value),
        Err(message) => Err(DeserializeError::new(Cause::Message(StringError::new(message)))),
    }
}

/// Reads a value from the document in `reader`.
pub fn from_reader<T: YaDeserialize>(reader: &[u8]) -> (result: Result<T, DeserializeError>)
    ensures
        exists|cursor: &mut Deserializer<'_>, read: Result<T, String>|
            {
                &&& cursor.wf()
                &&& cursor@ == first_view(reader@)
                &&& #[trigger] call_ensures(T::deserialize, (cursor,), read)
                &&& result == pass_result(read)
            },
{
    let mut cursor = Deserializer::new_from_reader(reader);
    let read = T::deserialize(&mut cursor);
    finish_pass(read)
}

/// Reads a value from the document in `s`.
pub fn from_str<T: YaDeserialize>(s: &str) -> (result: Result<T, StringDeserializeError>)
    ensures
        exists|cursor: &mut Deserializer<'_>, read: Result<T, String>|
            {
                &&& cursor.wf()
                &&& cursor@ == first_view(s.spec_bytes())
                &&& #[trigger] call_ensures(T::deserialize, (cursor,), read)
                &&& is_text_result(s@, pass_result(read), result)
            },
{
    match from_reader(s.as_bytes()) {
        Ok(value) => Ok(value),
        Err(cause) => Err(StringDeserializeError { text: s.to_owned(), cause: Some(cause) }),
    }
}

} // verus!
