//! Annotations as plain values: the tokens of one attribute on a field or a
//! type, as the compiler hands them to a derive.

use vstd::prelude::*;

verus! {

/// The brackets round a group of tokens.
#[derive(Debug, Clone, Copy, PartialEq, Eq, Structural)]
pub enum Delimiter {
    Parenthesis,
    Brace,
    Bracket,
    Invisible,
}

/// One token of an annotation. A literal holds its text as it stands in the
/// source, quotes included.
#[derive(Debug)]
pub enum Token {
    Ident(String),
    Punct(char),
    Literal(String),
    Group(Delimiter, Vec<Token>),
}

/// One attribute: the single identifier that its path consists of, where it
/// is one, and the tokens after the path.
#[derive(Debug)]
pub struct Annotation {
    pub path: Option<String>,
    pub tokens: Vec<Token>,
}

} // verus!
