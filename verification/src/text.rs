//! Strings as sequences of characters: the few operations on them that the
//! library needs.

use vstd::prelude::*;

verus! {

/// Text of an optional string.
pub open spec fn text_of(text: Option<String>) -> Option<Seq<char>> {
    match text {
        Some(text) => Some(text@),
        None => None,
    }
}

/// Appends `c` to `text`. Assumed of `String::push`: the text grows by
/// exactly that character, at its end.
#[verifier::external_body]
pub(crate) fn push_char(text: &mut String, c: char)
    ensures
        final(text)@ == old(text)@.push(c),
{
    text.push(c)
}

/// Whether two string slices hold the same text. Assumed of `==` on `str`:
/// it holds exactly where the two have the same characters.
#[verifier::external_body]
pub(crate) fn same_str(a: &str, b: &str) -> (same: bool)
    ensures
        same == (a@ == b@),
{
    a == b
}

/// Whether two optional strings hold the same text.
pub fn same_text(a: &Option<String>, b: &Option<String>) -> (same: bool)
    ensures
        same == (text_of(*a) == text_of(*b)),
{
    match (a, b) {
        (Some(a), Some(b)) => *a == *b,
        (None, None) => true,
        _ => false,
    }
}

/// The characters of `text`.
pub(crate) fn chars_of(text: &str) -> (chars: Vec<char>)
    ensures
        chars@ == text@,
{
    broadcast use vstd::string::group_string_axioms;

    let mut chars: Vec<char> = Vec::new();
    for c in iter: text.chars()
        invariant
            iter.seq() == text@,
            chars@ == text@.take(iter.index() as int),
    {
        chars.push(c);
        proof {
            assert(chars@ =~= text@.take(iter.index() + 1));
        }
    }
    proof {
        assert(text@.take(text@.len() as int) =~= text@);
    }
    chars
}

/// The text made of `chars[from..to]`.
pub(crate) fn text_of_chars(chars: &Vec<char>, from: usize, to: usize) -> (text: String)
    requires
        from <= to <= chars.len(),
    ensures
        text@ == chars@.subrange(from as int, to as int),
{
    let mut text = String::new();
    let mut at: usize = from;
    while at < to
        invariant
            from <= at <= to <= chars.len(),
            text@ == chars@.subrange(from as int, at as int),
        decreases to - at,
    {
        push_char(&mut text, chars[at]);
        at += 1;
        proof {
            assert(text@ =~= chars@.subrange(from as int, at as int));
        }
    }
    text
}

/// `label`, and `inner` between parentheses.
pub open spec fn labelled_text(label: Seq<char>, inner: Seq<char>) -> Seq<char> {
    label + "("@ + inner + ")"@
}

/// `label`, and `inner` between parentheses.
pub(crate) fn labelled(label: &str, inner: &str) -> (text: String)
    ensures
        text@ == labelled_text(label@, inner@),
{
    let mut text = label.to_owned();
    text.append("(");
    text.append(inner);
    text.append(")");
    text
}

} // verus!
