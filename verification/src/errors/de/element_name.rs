//! An element's name, namespace or prefix is not the one that was declared.

use vstd::prelude::*;

verus! {

/// What was expected of the name of an element, and what was found.
#[derive(Debug)]
pub enum ElementNameError {
    WrongLocalName { expected: String, actual: String },
    WrongNamespace { expected: String, actual: String },
    WrongPrefix { expected: String, actual: String },
}

impl ElementNameError {
    /// The text that the error is reported with.
    pub open spec fn message_text(self) -> Seq<char> {
        match self {
            ElementNameError::WrongLocalName { expected, actual } => "Element name is wrong. Expected "@ + expected@
                + ", but actually was "@ + actual@,
            ElementNameError::WrongNamespace { expected, actual } => "Element namespace is wrong. Expected "@
                + expected@ + ", but actually was "@ + actual@,
            ElementNameError::WrongPrefix { expected, actual } => "Element prefix is wrong. Expected "@ + expected@
                + ", but actually was "@ + actual@,
        }
    }

    /// The text that the error is reported with.
    pub fn message(&self) -> (text: String)
        ensures
            text@ == self.message_text(),
    {
        let (mut text, expected, actual) = match self {
            ElementNameError::WrongLocalName { expected, actual } => (
                "Element name is wrong. Expected ".to_owned(),
                expected,
                actual,
            ),
            ElementNameError::WrongNamespace { expected, actual } => (
                "Element namespace is wrong. Expected ".to_owned(),
                expected,
                actual,
            ),
            ElementNameError::WrongPrefix { expected, actual } => (
                "Element prefix is wrong. Expected ".to_owned(),
                expected,
                actual,
            ),
        };
        text.append(expected.as_str());
        text.append(", but actually was ");
        text.append(actual.as_str());
        text
    }

    /// The local name is not the expected one.
    pub fn new_wrong_local_name(expected: String, actual: String) -> (error: Self)
        ensures
            error == (ElementNameError::WrongLocalName { expected, actual }),
    {
        Self::WrongLocalName { expected, actual }
    }

    /// The namespace is not the expected one.
    pub fn new_wrong_namespace(expected: String, actual: String) -> (error: Self)
        ensures
            error == (ElementNameError::WrongNamespace { expected, actual }),
    {
        Self::WrongNamespace { expected, actual }
    }

    /// The prefix is not the expected one.
    pub fn new_wrong_prefix(expected: String, actual: String) -> (error: Self)
        ensures
            error == (ElementNameError::WrongPrefix { expected, actual }),
    {
        Self::WrongPrefix { expected, actual }
    }
}

} // verus!
