//! The event cursor: one event of lookahead and the nesting depth, over a
//! pull parser.

use vstd::prelude::*;
use crate::de::event::{Event, Name};
use crate::de::model::{
    closing_result, end_element_result, event_result, inner_value_result, skip_count, skip_result,
    start_element_result, CursorView,
};
use crate::de::source::{document_events, pending, read_next, EventSource, Outcome, ReaderOptions};
use crate::de::stream::{
    ends_once, lemma_advance_ends_once, lemma_surfaced_ends_once, lemma_surfaced_first,
    lemma_surfaced_nesting, lemma_surfaced_shown, lemma_surfaced_skip, nesting_fits, surfaced,
};
use crate::errors::de::{
    Cause, CouldNotPeekError, DeserializeError, ElementTagsError, UnexpectedEventError,
};

verus! {

/// A cursor over the events of one document.
pub struct Deserializer<'a> {
    depth: usize,
    reader: EventSource<'a>,
    peeked: Option<Event>,
}

/// The options that a cursor opens its own parser with: whitespace is
/// trimmed, whitespace and CDATA come as characters, comments are left out
/// and adjacent runs of characters are merged.
pub open spec fn normalizing_options() -> ReaderOptions {
    ReaderOptions {
        trim_whitespace: true,
        whitespace_to_characters: true,
        cdata_to_characters: true,
        ignore_comments: true,
        coalesce_characters: true,
    }
}

impl<'a> View for Deserializer<'a> {
    type V = CursorView;

    closed spec fn view(&self) -> CursorView {
        CursorView {
            depth: self.depth as nat,
            peeked: self.peeked,
            incoming: surfaced(pending(self.reader)),
        }
    }
}

impl<'a> Deserializer<'a> {
    /// What holds of the parser underneath, whatever was done to the cursor.
    pub closed spec fn inv(&self) -> bool {
        ends_once(pending(self.reader))
    }

    /// The invariant of a cursor.
    pub open spec fn wf(&self) -> bool {
        self.inv() && self@.valid()
    }

    /// What `depth` gives.
    pub closed spec fn spec_depth(&self) -> usize {
        self.depth
    }

    /// A cursor at depth 0 with an empty lookahead over `reader`. It is
    /// valid where what `reader` still gives ends once and its nesting fits
    /// a start at depth 0, as it does for a parser that was just opened.
    pub fn new(reader: EventSource<'a>) -> (cursor: Self)
        ensures
            cursor@ == (CursorView { depth: 0, peeked: None, incoming: surfaced(pending(reader)) }),
            ends_once(pending(reader)) && nesting_fits(0, pending(reader)) ==> cursor.wf(),
    {
        proof {
            if ends_once(pending(reader)) && nesting_fits(0, pending(reader)) {
                lemma_surfaced_ends_once(pending(reader));
                lemma_surfaced_shown(pending(reader));
                lemma_surfaced_nesting(0, pending(reader));
            }
        }
        Deserializer { depth: 0, reader, peeked: None }
    }

    /// A cursor over the document in `reader`, read with the normalizing
    /// options.
    pub fn new_from_reader(reader: &'a [u8]) -> (cursor: Self)
        ensures
            cursor.wf(),
            cursor@ == (CursorView {
                depth: 0,
                peeked: None,
                incoming: surfaced(document_events(reader@, normalizing_options())),
            }),
    {
        let options = ReaderOptions {
            trim_whitespace: true,
            whitespace_to_characters: true,
            cdata_to_characters: true,
            ignore_comments: true,
            coalesce_characters: true,
        };
        Self::new(EventSource::open(reader, &options))
    }

    /// The number of start tags consumed and not yet closed.
    #[verifier::when_used_as_spec(spec_depth)]
    pub fn depth(&self) -> (depth: usize)
        ensures
            depth == self.spec_depth(),
            depth == self@.depth,
    {
        self.depth
    }

    /// Takes the next outcome from the parser, past the lookahead, dropping
    /// document starts, processing instructions and comments. The depth is
    /// not moved.
    pub fn inner_next(&mut self) -> (outcome: Outcome)
        requires
            old(self).inv(),
        ensures
            final(self).inv(),
            outcome == old(self)@.incoming[0],
            outcome matches Ok(event) ==> !event.is_skipped(),
            final(self)@ == old(self)@.after_fetch(),
    {
        loop
            invariant
                ends_once(pending(self.reader)),
                surfaced(pending(self.reader)) == surfaced(pending(old(self).reader)),
                self.depth == old(self).depth,
                self.peeked == old(self).peeked,
            decreases pending(self.reader).len(),
        {
            let ghost before = pending(self.reader);
            let outcome = read_next(&mut self.reader);
            let skipped = match &outcome {
                Ok(event) => event.skipped(),
                Err(_) => false,
            };
            if !skipped {
                proof {
                    lemma_surfaced_first(before);
                    lemma_advance_ends_once(before);
                }
                return outcome;
            }
            proof {
                lemma_surfaced_skip(before);
            }
        }
    }

    /// The next event, without consuming it.
    pub fn peek(&mut self) -> (result: Result<&Event, DeserializeError>)
        requires
            old(self).wf(),
        ensures
            final(self).wf(),
            final(self)@ == old(self)@.after_peek(),
            match old(self)@.head() {
                Ok(event) => result matches Ok(peeked) && *peeked == event && !event.is_skipped(),
                Err(error) => result matches Err(failure) && failure == (DeserializeError {
                    cause: Cause::Reader(error),
                }),
            },
    {
        proof {
            old(self)@.lemma_peek();
            old(self)@.lemma_upcoming();
        }
        if self.peeked.is_none() {
            match self.inner_next() {
                Ok(event) => {
                    self.peeked = Some(event);
                },
                Err(error) => {
                    return Err(DeserializeError::new(Cause::Reader(error)));
                },
            }
        }
        match &self.peeked {
            Some(event) => Ok(event),
            None => Err(DeserializeError::new(Cause::CouldNotPeek(CouldNotPeekError {}))),
        }
    }

    /// The next event, consumed. A start tag raises the depth by one, an end
    /// tag lowers it by one.
    pub fn next_event(&mut self) -> (result: Result<Event, DeserializeError>)
        requires
            old(self).wf(),
        ensures
            final(self).wf(),
            final(self)@ == old(self)@.after_next(),
            result == event_result(old(self)@.head()),
            result matches Ok(event) ==> !event.is_skipped(),
    {
        proof {
            old(self)@.lemma_next();
            old(self)@.lemma_upcoming();
        }
        let next_event = match self.peeked.take() {
            Some(peeked) => peeked,
            None => match self.inner_next() {
                Ok(event) => event,
                Err(error) => {
                    return Err(DeserializeError::new(Cause::Reader(error)));
                },
            },
        };
        match &next_event {
            Event::StartElement { .. } => {
                self.depth += 1;
            },
            Event::EndElement { .. } => {
                self.depth -= 1;
            },
            _ => {},
        }
        Ok(next_event)
    }

    /// Consumes the next event, which must be a start tag, and gives its
    /// name, the namespaces in scope and its attributes.
    pub fn next_start_element_event(&mut self) -> (result: Result<
        (Name, xml::namespace::Namespace, Vec<xml::attribute::OwnedAttribute>),
        DeserializeError,
    >)
        requires
            old(self).wf(),
        ensures
            final(self).wf(),
            final(self)@ == old(self)@.after_next(),
            result == start_element_result(old(self)@.head()),
    {
        match self.next_event() {
            Ok(Event::StartElement { name, attributes, namespace }) => Ok((name, namespace, attributes)),
            Ok(event) => Err(DeserializeError::new(Cause::UnexpectedEvent(UnexpectedEventError::new(event)))),
            Err(failure) => Err(failure),
        }
    }

    /// Consumes the next event, which must be an end tag, and gives its name.
    pub fn next_end_element_event(&mut self) -> (result: Result<Name, DeserializeError>)
        requires
            old(self).wf(),
        ensures
            final(self).wf(),
            final(self)@ == old(self)@.after_next(),
            result == end_element_result(old(self)@.head()),
    {
        match self.next_event() {
            Ok(Event::EndElement { name }) => Ok(name),
            Ok(event) => Err(DeserializeError::new(Cause::UnexpectedEvent(UnexpectedEventError::new(event)))),
            Err(failure) => Err(failure),
        }
    }

    /// Consumes the next event, which must be the end tag of the element
    /// that was opened as `start_name`.
    pub fn expect_end_element(&mut self, start_name: Name) -> (result: Result<(), DeserializeError>)
        requires
            old(self).wf(),
        ensures
            final(self).wf(),
            final(self)@ == old(self)@.after_next(),
            result == closing_result(start_name, old(self)@.head()),
    {
        let end_name = self.next_end_element_event()?;
        if end_name != start_name {
            return Err(DeserializeError::new(Cause::ElementTags(ElementTagsError::new(start_name, end_name))));
        }
        Ok(())
    }

    /// The second half of `read_inner_value`: given what the body made of
    /// the element opened as `start_name`, hands a failure of the body on
    /// and touches nothing, and otherwise consumes the end tag and gives the
    /// body's value.
    pub fn finish_inner_value<T>(&mut self, start_name: Name, value: Result<T, DeserializeError>) -> (result:
        Result<T, DeserializeError>)
        requires
            old(self).wf(),
        ensures
            final(self).wf(),
            final(self)@ == if value is Ok {
                old(self)@.after_next()
            } else {
                old(self)@
            },
            result == inner_value_result(start_name, value, old(self)@.head()),
    {
        let inner = value?;
        self.expect_end_element(start_name)?;
        Ok(inner)
    }

    /// Consumes a start tag, lets `f` consume the content of the element,
    /// and consumes the end tag, which must carry the name of the start tag.
    /// A failure of `f` is handed on with the element left open.
    pub fn read_inner_value<T, F: FnOnce(&mut Self) -> Result<T, DeserializeError>>(&mut self, f: F) -> (result:
        Result<T, DeserializeError>)
        requires
            old(self).wf(),
            forall|inner: &mut Self|
                inner.wf() && inner@ == old(self)@.after_next() ==> call_requires(f, (inner,)),
            forall|inner: &mut Self, value: Result<T, DeserializeError>|
                inner.wf() && call_ensures(f, (inner,), value) ==> final(inner).wf(),
        ensures
            final(self).wf(),
            match start_element_result(old(self)@.head()) {
                Err(failure) => result == Err::<T, DeserializeError>(failure) && final(self)@ == old(self)@.after_next(),
                Ok(start) => exists|inner: &mut Self, value: Result<T, DeserializeError>|
                    {
                        &&& inner@ == old(self)@.after_next()
                        &&& #[trigger] call_ensures(f, (inner,), value)
                        &&& result == inner_value_result(start.0, value, final(inner)@.head())
                        &&& final(self)@ == if value is Ok {
                            final(inner)@.after_next()
                        } else {
                            final(inner)@
                        }
                    },
            },
    {
        let (start_name, _, _) = self.next_start_element_event()?;
        let value = f(self);
        self.finish_inner_value(start_name, value)
    }

    /// Consumes events, handing each to `cb`, until the depth is below the
    /// depth at entry: the rest of the element that the cursor stands in,
    /// its end tag included. The end of the document ends the skip with a
    /// failure.
    pub fn skip_element(&mut self, cb: impl FnMut(&Event)) -> (result: Result<(), DeserializeError>)
        requires
            old(self).wf(),
            forall|event: &Event| call_requires(cb, (event,)),
        ensures
            final(self).wf(),
            ({
                let count = skip_count(old(self)@.depth as int, old(self)@.depth as int, old(self)@.upcoming());
                &&& 1 <= count <= old(self)@.upcoming().len()
                &&& final(self)@ == old(self)@.after_next_n(count)
                &&& result == skip_result(old(self)@.upcoming()[count - 1])
                &&& result is Ok ==> final(self)@.depth + 1 == old(self)@.depth
                &&& forall|i: int|
                    0 <= i < count ==> (#[trigger] old(self)@.upcoming()[i] matches Ok(event) ==> call_ensures(
                        cb,
                        (&event,),
                        (),
                    ))
            }),
    {
        let depth = self.depth;
        let ghost start = self@;
        let ghost count = skip_count(start.depth as int, start.depth as int, start.upcoming());
        let ghost mut taken: nat = 0;
        let mut visit = cb;
        proof {
            start.lemma_upcoming();
        }
        loop
            invariant
                self.wf(),
                visit == cb,
                start == old(self)@,
                start.valid(),
                depth == start.depth,
                count == skip_count(depth as int, depth as int, start.upcoming()),
                self.depth >= depth,
                self@ == start.after_next_n(taken),
                taken < start.upcoming().len(),
                self@.upcoming() == start.upcoming().skip(taken as int),
                count == taken + skip_count(depth as int, self.depth as int, self@.upcoming()),
                forall|event: &Event| call_requires(cb, (event,)),
                forall|i: int|
                    0 <= i < taken ==> (#[trigger] start.upcoming()[i] matches Ok(event) ==> call_ensures(
                        cb,
                        (&event,),
                        (),
                    )),
            decreases self@.upcoming().len(),
        {
            let ghost before = self@;
            proof {
                before.lemma_upcoming();
                before.lemma_next();
                start.lemma_next_n_then_next(taken);
                assert(before.head() == start.upcoming()[taken as int]);
            }
            let event = match self.next_event() {
                Ok(event) => event,
                Err(failure) => {
                    return Err(failure);
                },
            };
            visit(&event);
            if let Event::EndDocument = event {
                return Err(DeserializeError::new(Cause::UnexpectedEvent(UnexpectedEventError::new(event))));
            }
            if self.depth < depth {
                return Ok(());
            }
            proof {
                taken = taken + 1;
                assert(self@.upcoming() =~= start.upcoming().skip(taken as int));
            }
        }
    }
}

} // verus!
