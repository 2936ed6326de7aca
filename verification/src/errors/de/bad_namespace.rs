//! An element stands in another namespace than the one declared for it.

use vstd::prelude::*;
use crate::errors::de::element_name::ElementNameError;

verus! {

/// The element `element_name` failed the namespace guard; `mismatch` holds
/// the expected and the observed namespace.
#[derive(Debug)]
pub struct BadNamespaceError {
    pub element_name: String,
    pub mismatch: ElementNameError,
}

impl BadNamespaceError {
    /// The text that the error is reported with.
    pub open spec fn message_text(self) -> Seq<char> {
        let found = match self.mismatch {
            ElementNameError::WrongLocalName { actual, .. } => actual@,
            ElementNameError::WrongNamespace { actual, .. } => actual@,
            ElementNameError::WrongPrefix { actual, .. } => actual@,
        };
        "bad namespace for "@ + self.element_name@ + ", found "@ + found
    }

    /// The text that the error is reported with.
    pub fn message(&self) -> (text: String)
        ensures
            text@ == self.message_text(),
    {
        let found = match &self.mismatch {
            ElementNameError::WrongLocalName { actual, .. } => actual,
            ElementNameError::WrongNamespace { actual, .. } => actual,
            ElementNameError::WrongPrefix { actual, .. } => actual,
        };
        let mut text = "bad namespace for ".to_owned();
        text.append(self.element_name.as_str());
        text.append(", found ");
        text.append(found.as_str());
        text
    }

    /// The error for the element `element_name`.
    pub fn new(element_name: String, mismatch: ElementNameError) -> (error: Self)
        ensures
            error == (BadNamespaceError { element_name, mismatch }),
    {
        Self { element_name, mismatch }
    }
}

} // verus!
