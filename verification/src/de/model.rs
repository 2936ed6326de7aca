//! The cursor as a mathematical value, and what each operation does to it.

use vstd::prelude::*;
use crate::de::event::{Event, Name};
use crate::de::source::Outcome;
use crate::de::stream::{
    advance, all_end_tags, all_start_tags, depth_after, depth_step, ends_once, is_final, is_skipped,
    lemma_advance_ends_once, lemma_advance_nesting, lemma_depth_after_both, lemma_depth_after_end_tags,
    lemma_depth_after_start_tags, lemma_rest_ends_once, nesting_fits,
};
use crate::errors::de::{Cause, DeserializeError, ElementTagsError, UnexpectedEventError};

verus! {

/// No outcome of `stream` is one that the cursor drops.
pub open spec fn all_shown(stream: Seq<Outcome>) -> bool {
    forall|i: int| 0 <= i < stream.len() ==> !is_skipped(#[trigger] stream[i])
}

/// What a caller gets for an outcome of the source: the event, or the
/// parser's error wrapped as the cause of a failed pass.
pub open spec fn event_result(outcome: Outcome) -> Result<Event, DeserializeError> {
    match outcome {
        Ok(event) => Ok(event),
        Err(error) => Err(DeserializeError { cause: Cause::Reader(error) }),
    }
}

/// What a caller that asks for a start tag gets for an outcome of the source.
pub open spec fn start_element_result(outcome: Outcome) -> Result<
    (Name, xml::namespace::Namespace, Vec<xml::attribute::OwnedAttribute>),
    DeserializeError,
> {
    match outcome {
        Ok(Event::StartElement { name, attributes, namespace }) => Ok((name, namespace, attributes)),
        Ok(event) => Err(DeserializeError { cause: Cause::UnexpectedEvent(UnexpectedEventError { event }) }),
        Err(error) => Err(DeserializeError { cause: Cause::Reader(error) }),
    }
}

/// What a caller that asks for an end tag gets for an outcome of the source.
pub open spec fn end_element_result(outcome: Outcome) -> Result<Name, DeserializeError> {
    match outcome {
        Ok(Event::EndElement { name }) => Ok(name),
        Ok(event) => Err(DeserializeError { cause: Cause::UnexpectedEvent(UnexpectedEventError { event }) }),
        Err(error) => Err(DeserializeError { cause: Cause::Reader(error) }),
    }
}

/// What a caller that closes the element opened as `start_name` gets for an
/// outcome of the source: success for an end tag of the same name, and
/// otherwise the reason.
pub open spec fn closing_result(start_name: Name, outcome: Outcome) -> Result<(), DeserializeError> {
    match end_element_result(outcome) {
        Ok(end_name) => if end_name@ == start_name@ {
            Ok(())
        } else {
            Err(DeserializeError { cause: Cause::ElementTags(ElementTagsError { start_name, end_name }) })
        },
        Err(failure) => Err(failure),
    }
}

/// What `read_inner_value` gives once the body of the element opened as
/// `start_name` gave `value` and the source then gave `outcome`.
pub open spec fn inner_value_result<T>(
    start_name: Name,
    value: Result<T, DeserializeError>,
    outcome: Outcome,
) -> Result<T, DeserializeError> {
    match value {
        Ok(inner) => match closing_result(start_name, outcome) {
            Ok(_) => Ok(inner),
            Err(failure) => Err(failure),
        },
        Err(failure) => Err(failure),
    }
}

/// How many outcomes `skip_element` consumes of `stream` when it was entered
/// at depth `entry` and has reached depth `depth`: up to and including the
/// first that is final or that takes the depth below `entry`.
pub open spec fn skip_count(entry: int, depth: int, stream: Seq<Outcome>) -> nat
    decreases stream.len(),
{
    if stream.len() == 0 {
        0
    } else if is_final(stream[0]) || depth_step(depth, stream[0]) < entry {
        1
    } else {
        1 + skip_count(entry, depth_step(depth, stream[0]), stream.drop_first())
    }
}

/// What `skip_element` gives when `last` is the last outcome it consumed.
pub open spec fn skip_result(last: Outcome) -> Result<(), DeserializeError> {
    match last {
        Ok(Event::EndDocument) => Err(
            DeserializeError { cause: Cause::UnexpectedEvent(UnexpectedEventError { event: Event::EndDocument }) },
        ),
        Ok(_) => Ok(()),
        Err(error) => Err(DeserializeError { cause: Cause::Reader(error) }),
    }
}

/// `skip_element` stops at the first outcome that is final or that takes the
/// depth below the depth at entry, and not before; where it stops at an
/// outcome that is not final, the depth is one below the depth at entry.
pub proof fn lemma_skip_count(entry: int, depth: int, stream: Seq<Outcome>)
    requires
        ends_once(stream),
        entry <= depth,
    ensures
        1 <= skip_count(entry, depth, stream) <= stream.len(),
        forall|fewer: int|
            1 <= fewer < skip_count(entry, depth, stream) ==> !is_final(stream[fewer - 1]) && entry <= depth_after(
                depth,
                #[trigger] stream.take(fewer),
            ),
        is_final(stream[skip_count(entry, depth, stream) - 1]) || depth_after(
            depth,
            stream.take(skip_count(entry, depth, stream) as int),
        ) == entry - 1,
    decreases stream.len(),
{
    let count = skip_count(entry, depth, stream);
    let rest = stream.drop_first();
    let next = depth_step(depth, stream[0]);
    assert(stream.take(1) =~= seq![stream[0]]);
    assert(stream.take(1).drop_first() =~= Seq::<Outcome>::empty());
    assert(depth_after(depth, stream.take(1)) == next) by {
        reveal_with_fuel(depth_after, 2);
    }
    if !(is_final(stream[0]) || next < entry) {
        lemma_rest_ends_once(stream);
        lemma_skip_count(entry, next, rest);
        assert forall|fewer: int| 1 <= fewer <= count implies depth_after(depth, #[trigger] stream.take(fewer))
            == if fewer == 1 {
            next
        } else {
            depth_after(next, rest.take(fewer - 1))
        } by {
            assert(stream.take(fewer).drop_first() =~= rest.take(fewer - 1));
        }
        assert forall|fewer: int| 1 <= fewer < count implies !is_final(stream[fewer - 1]) && entry <= depth_after(
            depth,
            #[trigger] stream.take(fewer),
        ) by {
            if fewer > 1 {
                assert(rest[fewer - 2] == stream[fewer - 1]);
                assert(entry <= depth_after(next, rest.take(fewer - 1)));
            }
        }
        assert(rest[count - 2] == stream[count - 1]);
    }
}

/// Mathematical value of a cursor.
pub struct CursorView {
    /// Start tags consumed and not yet closed.
    pub depth: nat,
    /// The event held back by a peek.
    pub peeked: Option<Event>,
    /// What the source still gives, without the outcomes that are dropped.
    pub incoming: Seq<Outcome>,
}

impl CursorView {
    /// The outcomes that `next_event` will give, in order. The last one
    /// repeats for ever: an end of document that was peeked is not counted
    /// a second time.
    pub open spec fn upcoming(self) -> Seq<Outcome> {
        match self.peeked {
            Some(event) => if event is EndDocument {
                seq![Ok(event)]
            } else {
                seq![Ok(event)] + self.incoming
            },
            None => self.incoming,
        }
    }

    /// The outcome that `peek` and `next_event` give next.
    pub open spec fn head(self) -> Outcome {
        self.upcoming()[0]
    }

    /// The invariant of a cursor.
    pub open spec fn valid(self) -> bool {
        &&& ends_once(self.incoming)
        &&& all_shown(self.incoming)
        &&& self.peeked matches Some(event) ==> {
            &&& !event.is_skipped()
            &&& event is EndDocument ==> self.incoming == seq![Ok::<Event, xml::reader::Error>(event)]
        }
        &&& nesting_fits(self.depth as int, self.upcoming())
    }

    /// The cursor after one outcome was taken from the source, past the
    /// lookahead.
    pub open spec fn after_fetch(self) -> CursorView {
        CursorView { incoming: advance(self.incoming), ..self }
    }

    /// The cursor after `peek`.
    pub open spec fn after_peek(self) -> CursorView {
        match (self.peeked, self.incoming[0]) {
            (None, Ok(event)) => CursorView { peeked: Some(event), incoming: advance(self.incoming), ..self },
            _ => self,
        }
    }

    /// The cursor after `next_event`.
    pub open spec fn after_next(self) -> CursorView {
        match self.peeked {
            Some(event) => CursorView {
                depth: depth_step(self.depth as int, Ok(event)) as nat,
                peeked: None,
                incoming: self.incoming,
            },
            None => CursorView {
                depth: depth_step(self.depth as int, self.incoming[0]) as nat,
                peeked: None,
                incoming: advance(self.incoming),
            },
        }
    }

    /// The cursor after `count` calls of `next_event`.
    pub open spec fn after_next_n(self, count: nat) -> CursorView
        decreases count,
    {
        if count == 0 {
            self
        } else {
            self.after_next().after_next_n((count - 1) as nat)
        }
    }

    /// A valid cursor always has a next outcome, none of them is one that is
    /// dropped, and only the last one is final.
    pub proof fn lemma_upcoming(self)
        requires
            self.valid(),
        ensures
            ends_once(self.upcoming()),
            all_shown(self.upcoming()),
    {
        let upcoming = self.upcoming();
        if let Some(event) = self.peeked {
            if !(event is EndDocument) {
                assert forall|i: int| 0 <= i < upcoming.len() implies (is_final(#[trigger] upcoming[i]) <==> i
                    == upcoming.len() - 1) by {
                    if i > 0 {
                        assert(upcoming[i] == self.incoming[i - 1]);
                    }
                }
                assert forall|i: int| 0 <= i < upcoming.len() implies !is_skipped(#[trigger] upcoming[i]) by {
                    if i > 0 {
                        assert(upcoming[i] == self.incoming[i - 1]);
                    }
                }
            }
        }
    }

    /// A peek changes neither the depth nor what is still to come, and fills
    /// the lookahead with the next event where there is one.
    pub proof fn lemma_peek(self)
        requires
            self.valid(),
        ensures
            self.after_peek().valid(),
            self.after_peek().depth == self.depth,
            self.after_peek().upcoming() == self.upcoming(),
            self.head() matches Ok(event) ==> self.after_peek().peeked == Some(event),
            self.head() is Err ==> self.after_peek() == self,
    {
        let after = self.after_peek();
        if self.peeked is None {
            if let Ok(event) = self.incoming[0] {
                lemma_advance_ends_once(self.incoming);
                assert(!is_skipped(self.incoming[0]));
                if self.incoming.len() > 1 {
                    lemma_rest_ends_once(self.incoming);
                    assert(after.upcoming() =~= self.incoming);
                    assert forall|i: int| 0 <= i < after.incoming.len() implies !is_skipped(
                        #[trigger] after.incoming[i],
                    ) by {
                        assert(after.incoming[i] == self.incoming[i + 1]);
                    }
                } else {
                    assert(is_final(self.incoming[0]));
                    assert(self.incoming =~= seq![Ok::<Event, xml::reader::Error>(event)]);
                }
            }
        }
    }

    /// Taking the next event moves the depth by that event's step and
    /// advances what is still to come by one.
    pub proof fn lemma_next(self)
        requires
            self.valid(),
        ensures
            self.after_next().valid(),
            self.after_next().peeked is None,
            self.after_next().depth == depth_step(self.depth as int, self.head()),
            self.after_next().upcoming() == advance(self.upcoming()),
    {
        let after = self.after_next();
        self.lemma_upcoming();
        lemma_advance_nesting(self.depth as int, self.upcoming());
        match self.peeked {
            Some(_) => {
                assert(advance(self.upcoming()) =~= self.incoming);
            },
            None => {
                lemma_advance_ends_once(self.incoming);
                if self.incoming.len() > 1 {
                    assert forall|i: int| 0 <= i < after.incoming.len() implies !is_skipped(
                        #[trigger] after.incoming[i],
                    ) by {
                        assert(after.incoming[i] == self.incoming[i + 1]);
                    }
                }
            },
        }
    }

    /// `next_event` after `peek` gives the peeked event and leaves the cursor
    /// where `next_event` alone would have left it: nothing is given twice
    /// and nothing is lost.
    pub proof fn lemma_next_after_peek(self)
        requires
            self.valid(),
        ensures
            self.after_peek().head() == self.head(),
            self.after_peek().after_next() == self.after_next(),
    {
        self.lemma_peek();
        self.lemma_upcoming();
        if self.peeked is None {
            if let Ok(event) = self.incoming[0] {
                assert(depth_step(self.depth as int, Ok(event)) == depth_step(self.depth as int, self.incoming[0]));
            }
        }
    }

    /// One more call of `next_event` after `count` of them.
    pub proof fn lemma_next_n_then_next(self, count: nat)
        ensures
            self.after_next_n(count).after_next() == self.after_next_n(count + 1),
        decreases count,
    {
        reveal_with_fuel(CursorView::after_next_n, 2);
        if count > 0 {
            self.after_next().lemma_next_n_then_next((count - 1) as nat);
            assert(self.after_next_n(count + 1) == self.after_next().after_next_n(count));
        }
    }

    /// Any number of calls of `next_event` leave a valid cursor valid.
    pub proof fn lemma_next_n_valid(self, count: nat)
        requires
            self.valid(),
        ensures
            self.after_next_n(count).valid(),
        decreases count,
    {
        if count > 0 {
            self.lemma_next();
            self.after_next().lemma_next_n_valid((count - 1) as nat);
        }
    }

    /// After `count` calls of `next_event` that stay within what is still
    /// to come, the depth has moved by the steps of the outcomes taken, and
    /// the rest is still to come.
    pub proof fn lemma_next_n(self, count: nat)
        requires
            self.valid(),
            count <= self.upcoming().len(),
        ensures
            self.after_next_n(count).depth == depth_after(self.depth as int, self.upcoming().take(count as int)),
            count < self.upcoming().len() ==> self.after_next_n(count).upcoming() == self.upcoming().skip(
                count as int,
            ),
        decreases count,
    {
        let upcoming = self.upcoming();
        if count == 0 {
            assert(upcoming.take(0) =~= Seq::<Outcome>::empty());
            assert(upcoming.skip(0) =~= upcoming);
        } else {
            self.lemma_next();
            self.lemma_upcoming();
            let taken = upcoming.take(count as int);
            assert(taken[0] == upcoming[0]);
            if upcoming.len() > 1 {
                self.after_next().lemma_next_n((count - 1) as nat);
                assert(taken.drop_first() =~= upcoming.drop_first().take(count - 1));
                if count < upcoming.len() {
                    assert(upcoming.drop_first().skip(count - 1) =~= upcoming.skip(count as int));
                }
            } else {
                assert(taken.drop_first() =~= Seq::<Outcome>::empty());
                reveal_with_fuel(CursorView::after_next_n, 2);
                reveal_with_fuel(depth_after, 2);
            }
        }
    }

    /// Where `pairs` start tags and then `pairs` end tags are to come, the
    /// depth is `pairs` higher once the start tags are consumed, and back
    /// where it was once the end tags are consumed too.
    pub proof fn lemma_nested_pairs(self, pairs: nat)
        requires
            self.valid(),
            2 * pairs <= self.upcoming().len(),
            all_start_tags(self.upcoming().subrange(0, pairs as int)),
            all_end_tags(self.upcoming().subrange(pairs as int, 2 * pairs as int)),
        ensures
            self.after_next_n(pairs).depth == self.depth + pairs,
            self.after_next_n(2 * pairs).depth == self.depth,
    {
        let upcoming = self.upcoming();
        let opening = upcoming.subrange(0, pairs as int);
        let closing = upcoming.subrange(pairs as int, 2 * pairs as int);
        self.lemma_next_n(pairs);
        self.lemma_next_n(2 * pairs);
        assert(upcoming.take(pairs as int) =~= opening);
        assert(upcoming.take(2 * pairs as int) =~= opening + closing);
        lemma_depth_after_start_tags(self.depth as int, opening);
        lemma_depth_after_both(self.depth as int, opening, closing);
        lemma_depth_after_end_tags(self.depth as int + pairs as int, closing);
    }

    /// A second peek changes nothing.
    pub proof fn lemma_peek_twice(self)
        requires
            self.valid(),
        ensures
            self.after_peek().after_peek() == self.after_peek(),
    {
    }
}

} // verus!
