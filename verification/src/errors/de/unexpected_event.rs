//! The next event was of another kind than the call asked for.

use vstd::prelude::*;
use crate::de::event::Event;

verus! {

/// `event` came where an event of another kind was asked for.
#[derive(Debug)]
pub struct UnexpectedEventError {
    pub event: Event,
}

impl UnexpectedEventError {
    /// The text that the error is reported with.
    pub open spec fn message_text(self) -> Seq<char> {
        "Unexpected Event: "@ + self.event.description()
    }

    /// The text that the error is reported with.
    pub fn message(&self) -> (text: String)
        ensures
            text@ == self.message_text(),
    {
        let mut text = "Unexpected Event: ".to_owned();
        text.append(self.event.describe().as_str());
        text
    }

    /// The error for `event`.
    pub fn new(event: Event) -> (error: Self)
        ensures
            error == (UnexpectedEventError { event }),
    {
        Self { event }
    }
}

} // verus!
