//! Text of annotation values: quotes, and the `prefix: uri` form of a
//! namespace declaration.

use vstd::prelude::*;
use crate::text::{chars_of, push_char, text_of_chars};

verus! {

/// `text` without its double quotes.
pub open spec fn without_quotes(text: Seq<char>) -> Seq<char> {
    text.filter(|c: char| c != '"')
}

/// Whether `": "` stands in `text` at `at`.
pub open spec fn separator_at(text: Seq<char>, at: int) -> bool {
    0 <= at && at + 1 < text.len() && text[at] == ':' && text[at + 1] == ' '
}

/// The first place at or after `from` where `": "` stands in `text`.
pub open spec fn find_separator(text: Seq<char>, from: int) -> Option<int>
    decreases text.len() - from,
{
    if from < 0 || from + 1 >= text.len() {
        None
    } else if separator_at(text, from) {
        Some(from)
    } else {
        find_separator(text, from + 1)
    }
}

/// What a namespace declaration binds: with no `": "` in it, the whole text
/// is the URI of the default namespace; with one, the text before it is the
/// prefix and the text after it the URI; with more, it binds nothing.
pub open spec fn declared(text: Seq<char>) -> Option<(Option<Seq<char>>, Seq<char>)> {
    match find_separator(text, 0) {
        None => Some((None, text)),
        Some(at) => match find_separator(text, at + 2) {
            None => Some((Some(text.subrange(0, at)), text.subrange(at + 2, text.len() as int))),
            Some(_) => None,
        },
    }
}

/// `find_separator` gives the first place at or after `from` where `": "`
/// stands, and nothing only where it stands nowhere from there on.
pub proof fn lemma_find_separator(text: Seq<char>, from: int)
    requires
        0 <= from,
    ensures
        match find_separator(text, from) {
            Some(at) => from <= at && separator_at(text, at) && forall|before: int|
                from <= before < at ==> !separator_at(text, before),
            None => forall|at: int| from <= at ==> !separator_at(text, at),
        },
    decreases text.len() - from,
{
    if from + 1 < text.len() && !separator_at(text, from) {
        lemma_find_separator(text, from + 1);
    }
}

/// A declaration without `": "` binds the default namespace to the whole
/// text; one with `": "` in exactly one place binds the text before it to the
/// text after it; one with `": "` in two places binds nothing.
pub proof fn lemma_declared(text: Seq<char>)
    ensures
        match declared(text) {
            Some((None, uri)) => uri == text && forall|at: int| !separator_at(text, at),
            Some((Some(prefix), uri)) => exists|at: int|
                {
                    &&& #[trigger] separator_at(text, at)
                    &&& forall|other: int| separator_at(text, other) ==> other == at
                    &&& prefix == text.subrange(0, at)
                    &&& uri == text.subrange(at + 2, text.len() as int)
                },
            None => exists|first: int, second: int|
                first != second && #[trigger] separator_at(text, first) && #[trigger] separator_at(text, second),
        },
{
    lemma_find_separator(text, 0);
    if let Some(at) = find_separator(text, 0) {
        lemma_find_separator(text, at + 2);
        match find_separator(text, at + 2) {
            Some(second) => {
                assert(separator_at(text, at) && separator_at(text, second));
            },
            None => {
                assert forall|other: int| separator_at(text, other) implies other == at by {
                    if other == at + 1 {
                        assert(text[at + 1] == ' ');
                    }
                }
            },
        }
    }
}

/// `text` without its double quotes.
pub fn unquoted(text: &str) -> (plain: String)
    ensures
        plain@ == without_quotes(text@),
{
    broadcast use vstd::string::group_string_axioms;

    let mut plain = String::new();
    proof {
        reveal(Seq::filter);
        assert(text@.take(0) =~= Seq::<char>::empty());
    }
    for c in iter: text.chars()
        invariant
            iter.seq() == text@,
            plain@ == without_quotes(text@.take(iter.index() as int)),
    {
        proof {
            let next = iter.index() + 1;
            reveal(Seq::filter);
            assert(text@.take(next).drop_last() =~= text@.take(next - 1));
            assert(text@.take(next).last() == c);
        }
        if c != '"' {
            push_char(&mut plain, c);
        }
    }
    proof {
        assert(text@.take(text@.len() as int) =~= text@);
    }
    plain
}

/// The first place at or after `from` where `": "` stands in `chars`.
pub(crate) fn separator_from(chars: &Vec<char>, from: usize) -> (found: Option<usize>)
    ensures
        match found {
            Some(at) => find_separator(chars@, from as int) == Some(at as int) && separator_at(chars@, at as int),
            None => find_separator(chars@, from as int) is None,
        },
{
    let mut at: usize = from;
    while at < chars.len() && at + 1 < chars.len()
        invariant
            from <= at,
            find_separator(chars@, from as int) == find_separator(chars@, at as int),
        decreases chars.len() - at,
    {
        if chars[at] == ':' && chars[at + 1] == ' ' {
            return Some(at);
        }
        at += 1;
    }
    None
}

/// Splits the value of a namespace declaration into prefix and URI.
pub fn split_declaration(value: &str) -> (binding: Option<(Option<String>, String)>)
    ensures
        match binding {
            Some((Some(prefix), uri)) => declared(value@) == Some((Some(prefix@), uri@)),
            Some((None, uri)) => declared(value@) == Some((None::<Seq<char>>, uri@)),
            None => declared(value@) is None,
        },
{
    let chars = chars_of(value);
    match separator_from(&chars, 0) {
        None => Some((None, value.to_owned())),
        Some(at) => match separator_from(&chars, at + 2) {
            None => Some((Some(text_of_chars(&chars, 0, at)), text_of_chars(&chars, at + 2, chars.len()))),
            Some(_) => None,
        },
    }
}

} // verus!
