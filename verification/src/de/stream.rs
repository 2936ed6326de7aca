//! Event streams as sequences: which outcomes end a stream, which ones the
//! cursor drops, and how far the nesting depth moves along a stream.

use vstd::prelude::*;
use crate::de::event::Event;
use crate::de::source::Outcome;

verus! {

/// An outcome after which the parser only repeats itself: an error, or the
/// end of the document.
pub open spec fn is_final(outcome: Outcome) -> bool {
    outcome is Err || outcome matches Ok(Event::EndDocument)
}

/// An outcome that the cursor drops where it fetches it.
pub open spec fn is_skipped(outcome: Outcome) -> bool {
    outcome matches Ok(event) && event.is_skipped()
}

/// Nesting depth after `outcome` is consumed at depth `depth`.
pub open spec fn depth_step(depth: int, outcome: Outcome) -> int {
    match outcome {
        Ok(Event::StartElement { .. }) => depth + 1,
        Ok(Event::EndElement { .. }) => depth - 1,
        _ => depth,
    }
}

/// Nesting depth after all of `stream` is consumed, starting at `depth`.
pub open spec fn depth_after(depth: int, stream: Seq<Outcome>) -> int
    decreases stream.len(),
{
    if stream.len() == 0 {
        depth
    } else {
        depth_after(depth_step(depth, stream[0]), stream.drop_first())
    }
}

/// A stream that is not empty and whose last outcome, and no other, is final.
pub open spec fn ends_once(stream: Seq<Outcome>) -> bool {
    &&& stream.len() > 0
    &&& forall|i: int| 0 <= i < stream.len() ==> (is_final(#[trigger] stream[i]) <==> i == stream.len() - 1)
}

/// Along `stream`, starting at `depth`, the depth never leaves `0..=usize::MAX`.
pub open spec fn nesting_fits(depth: int, stream: Seq<Outcome>) -> bool
    decreases stream.len(),
{
    &&& 0 <= depth <= usize::MAX
    &&& stream.len() > 0 ==> nesting_fits(depth_step(depth, stream[0]), stream.drop_first())
}

/// `stream` without the outcomes that the cursor drops.
pub open spec fn surfaced(stream: Seq<Outcome>) -> Seq<Outcome>
    decreases stream.len(),
{
    if stream.len() == 0 {
        Seq::empty()
    } else if is_skipped(stream[0]) {
        surfaced(stream.drop_first())
    } else {
        seq![stream[0]] + surfaced(stream.drop_first())
    }
}

/// What is left of a stream after its first outcome is taken: the rest, or,
/// where the first outcome is the last, the stream itself.
pub open spec fn advance(stream: Seq<Outcome>) -> Seq<Outcome> {
    if stream.len() > 1 {
        stream.drop_first()
    } else {
        stream
    }
}

/// The nesting of a stream fits exactly where the depth after each of its
/// beginnings lies in `0..=usize::MAX`.
pub proof fn lemma_nesting_fits(depth: int, stream: Seq<Outcome>)
    ensures
        nesting_fits(depth, stream) <==> forall|count: int|
            0 <= count <= stream.len() ==> 0 <= depth_after(depth, #[trigger] stream.take(count)) <= usize::MAX,
    decreases stream.len(),
{
    assert(stream.take(0) =~= Seq::<Outcome>::empty());
    if stream.len() > 0 {
        let rest = stream.drop_first();
        let next = depth_step(depth, stream[0]);
        lemma_nesting_fits(next, rest);
        assert forall|count: int| 1 <= count <= stream.len() implies depth_after(depth, #[trigger] stream.take(count))
            == depth_after(next, rest.take(count - 1)) by {
            assert(stream.take(count).drop_first() =~= rest.take(count - 1));
        }
        if nesting_fits(depth, stream) {
            assert forall|count: int| 0 <= count <= stream.len() implies 0 <= depth_after(
                depth,
                #[trigger] stream.take(count),
            ) <= usize::MAX by {
                if count > 0 {
                    assert(0 <= depth_after(next, rest.take(count - 1)) <= usize::MAX);
                }
            }
        }
        if forall|count: int|
            0 <= count <= stream.len() ==> 0 <= depth_after(depth, #[trigger] stream.take(count)) <= usize::MAX {
            assert(0 <= depth_after(depth, stream.take(0)) <= usize::MAX);
            assert forall|count: int| 0 <= count <= rest.len() implies 0 <= depth_after(
                next,
                #[trigger] rest.take(count),
            ) <= usize::MAX by {
                assert(0 <= depth_after(depth, stream.take(count + 1)) <= usize::MAX);
            }
        }
    }
}

/// Dropping the first outcome of a stream that goes on keeps it ending once.
pub proof fn lemma_rest_ends_once(stream: Seq<Outcome>)
    requires
        ends_once(stream),
        stream.len() > 1,
    ensures
        ends_once(stream.drop_first()),
        !is_final(stream[0]),
{
    let rest = stream.drop_first();
    assert forall|i: int| 0 <= i < rest.len() implies (is_final(#[trigger] rest[i]) <==> i == rest.len() - 1) by {
        assert(rest[i] == stream[i + 1]);
    }
}

/// Advancing keeps a stream ending once.
pub proof fn lemma_advance_ends_once(stream: Seq<Outcome>)
    requires
        ends_once(stream),
    ensures
        ends_once(advance(stream)),
{
    if stream.len() > 1 {
        lemma_rest_ends_once(stream);
    }
}

/// Dropping the skipped outcomes keeps a stream ending once.
pub proof fn lemma_surfaced_ends_once(stream: Seq<Outcome>)
    requires
        ends_once(stream),
    ensures
        ends_once(surfaced(stream)),
    decreases stream.len(),
{
    let rest = stream.drop_first();
    if stream.len() == 1 {
        assert(is_final(stream[0]));
        assert(surfaced(rest) =~= Seq::<Outcome>::empty());
        assert(surfaced(stream) =~= seq![stream[0]]);
    } else {
        lemma_rest_ends_once(stream);
        lemma_surfaced_ends_once(rest);
        if !is_skipped(stream[0]) {
            let shown = surfaced(stream);
            assert forall|i: int| 0 <= i < shown.len() implies (is_final(#[trigger] shown[i]) <==> i == shown.len() - 1) by {
                if i > 0 {
                    assert(shown[i] == surfaced(rest)[i - 1]);
                }
            }
        }
    }
}

/// Skipped outcomes do not move the depth, so dropping them keeps it in range.
pub proof fn lemma_surfaced_nesting(depth: int, stream: Seq<Outcome>)
    requires
        nesting_fits(depth, stream),
    ensures
        nesting_fits(depth, surfaced(stream)),
    decreases stream.len(),
{
    if stream.len() > 0 {
        let rest = stream.drop_first();
        lemma_surfaced_nesting(depth_step(depth, stream[0]), rest);
        if !is_skipped(stream[0]) {
            let shown = surfaced(stream);
            assert(shown[0] == stream[0]);
            assert(shown.drop_first() =~= surfaced(rest));
        }
    }
}

/// Advancing a stream whose nesting fits leaves one whose nesting fits.
pub proof fn lemma_advance_nesting(depth: int, stream: Seq<Outcome>)
    requires
        nesting_fits(depth, stream),
        ends_once(stream),
    ensures
        nesting_fits(depth_step(depth, stream[0]), advance(stream)),
        0 <= depth_step(depth, stream[0]) <= usize::MAX,
{
    if stream.len() == 1 {
        assert(is_final(stream[0]));
    }
}

/// What is left after the skipped outcomes are dropped holds none of them.
pub proof fn lemma_surfaced_shown(stream: Seq<Outcome>)
    ensures
        forall|i: int| 0 <= i < surfaced(stream).len() ==> !is_skipped(#[trigger] surfaced(stream)[i]),
    decreases stream.len(),
{
    if stream.len() > 0 {
        let rest = stream.drop_first();
        lemma_surfaced_shown(rest);
        if !is_skipped(stream[0]) {
            let shown = surfaced(stream);
            assert forall|i: int| 0 <= i < shown.len() implies !is_skipped(#[trigger] shown[i]) by {
                if i > 0 {
                    assert(shown[i] == surfaced(rest)[i - 1]);
                }
            }
        }
    }
}

/// Where the first outcome is shown, it is the first one left, and taking it
/// from the stream takes it from what is left.
pub proof fn lemma_surfaced_first(stream: Seq<Outcome>)
    requires
        ends_once(stream),
        !is_skipped(stream[0]),
    ensures
        surfaced(stream).len() > 0,
        surfaced(stream)[0] == stream[0],
        surfaced(advance(stream)) == advance(surfaced(stream)),
{
    let rest = stream.drop_first();
    if stream.len() > 1 {
        lemma_rest_ends_once(stream);
        lemma_surfaced_ends_once(rest);
        assert(surfaced(stream).drop_first() =~= surfaced(rest));
    } else {
        assert(surfaced(rest) =~= Seq::<Outcome>::empty());
        assert(surfaced(stream) =~= seq![stream[0]]);
    }
}

/// Where the first outcome is skipped, the stream goes on, and what is left
/// of it is what is left of the rest.
pub proof fn lemma_surfaced_skip(stream: Seq<Outcome>)
    requires
        ends_once(stream),
        is_skipped(stream[0]),
    ensures
        stream.len() > 1,
        advance(stream) == stream.drop_first(),
        ends_once(stream.drop_first()),
        surfaced(stream.drop_first()) == surfaced(stream),
{
    assert(!is_final(stream[0]));
    lemma_rest_ends_once(stream);
}

/// Every outcome of `stream` is a start tag.
pub open spec fn all_start_tags(stream: Seq<Outcome>) -> bool {
    forall|i: int| 0 <= i < stream.len() ==> #[trigger] stream[i] matches Ok(Event::StartElement { .. })
}

/// Every outcome of `stream` is an end tag.
pub open spec fn all_end_tags(stream: Seq<Outcome>) -> bool {
    forall|i: int| 0 <= i < stream.len() ==> #[trigger] stream[i] matches Ok(Event::EndElement { .. })
}

/// The depth after two streams in a row is the depth after the second,
/// started where the first one ended.
pub proof fn lemma_depth_after_both(depth: int, first: Seq<Outcome>, second: Seq<Outcome>)
    ensures
        depth_after(depth, first + second) == depth_after(depth_after(depth, first), second),
    decreases first.len(),
{
    if first.len() == 0 {
        assert(first + second =~= second);
    } else {
        assert((first + second)[0] == first[0]);
        assert((first + second).drop_first() =~= first.drop_first() + second);
        lemma_depth_after_both(depth_step(depth, first[0]), first.drop_first(), second);
    }
}

/// Start tags raise the depth by their number.
pub proof fn lemma_depth_after_start_tags(depth: int, stream: Seq<Outcome>)
    requires
        all_start_tags(stream),
    ensures
        depth_after(depth, stream) == depth + stream.len(),
    decreases stream.len(),
{
    if stream.len() > 0 {
        let rest = stream.drop_first();
        assert forall|i: int| 0 <= i < rest.len() implies #[trigger] rest[i] matches Ok(Event::StartElement { .. }) by {
            assert(rest[i] == stream[i + 1]);
        }
        assert(stream[0] matches Ok(Event::StartElement { .. }));
        lemma_depth_after_start_tags(depth + 1, rest);
    }
}

/// End tags lower the depth by their number.
pub proof fn lemma_depth_after_end_tags(depth: int, stream: Seq<Outcome>)
    requires
        all_end_tags(stream),
    ensures
        depth_after(depth, stream) == depth - stream.len(),
    decreases stream.len(),
{
    if stream.len() > 0 {
        let rest = stream.drop_first();
        assert forall|i: int| 0 <= i < rest.len() implies #[trigger] rest[i] matches Ok(Event::EndElement { .. }) by {
            assert(rest[i] == stream[i + 1]);
        }
        assert(stream[0] matches Ok(Event::EndElement { .. }));
        lemma_depth_after_end_tags(depth - 1, rest);
    }
}

} // verus!
