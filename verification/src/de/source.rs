//! The pull parser that feeds the cursor, and what is assumed of it.

use vstd::prelude::*;
use crate::de::event::{Event, Name};
use crate::de::stream::{ends_once, nesting_fits};
use xml::reader::{EventReader, ParserConfig, XmlEvent};

verus! {

/// `xml::reader::Error`: why the parser could not give the next event,
/// carried through as the parser gives it.
#[verifier::external_type_specification]
#[verifier::external_body]
pub struct ExReaderError(xml::reader::Error);

/// What one pull of the parser gives: an event, or the parser's error.
pub type Outcome = Result<Event, xml::reader::Error>;

/// How the parser normalizes text and comments. Each field is the option of
/// the same name of the parser's configuration.
#[derive(Debug, Clone, Copy)]
pub struct ReaderOptions {
    pub trim_whitespace: bool,
    pub whitespace_to_characters: bool,
    pub cdata_to_characters: bool,
    pub ignore_comments: bool,
    pub coalesce_characters: bool,
}

/// A pull parser over a byte slice: an `xml::reader::EventReader<&[u8]>`.
/// The verifier does not look inside; what it knows of a parser is what
/// [`pending`] says of it.
#[verifier::external_body]
pub struct EventSource<'a> {
    reader: EventReader<&'a [u8]>,
}

impl<'a> EventSource<'a> {
    /// A parser at the start of the document in `bytes`.
    pub fn open(bytes: &'a [u8], options: &ReaderOptions) -> (source: EventSource<'a>)
        ensures
            pending(source) == document_events(bytes@, *options),
            ends_once(pending(source)),
            nesting_fits(0, pending(source)),
    {
        open_source(bytes, options)
    }
}

/// The outcomes that successive calls of `EventReader::next` on `source`
/// give, up to and including the first error or end of document. That last
/// outcome is the one that every later call gives again.
pub uninterp spec fn pending(source: EventSource) -> Seq<Outcome>;

/// The outcomes that a parser gives that `EventReader::new_with_config`
/// made for `bytes` with `options`.
pub uninterp spec fn document_events(bytes: Seq<u8>, options: ReaderOptions) -> Seq<Outcome>;

/// Calls `EventReader::new_with_config` on `bytes`, with the configuration
/// that `ParserConfig::new` gives and the five options set from `options`.
///
/// Assumed of the parser that it makes:
/// - what it gives depends on the bytes and the options alone;
/// - it gives finitely many outcomes up to the first error or end of
///   document: the bytes run out, and `next` is documented to give an error
///   or an end of document again and again once it gave it;
/// - along its outcomes the start tags never fall behind the end tags in
///   number, nor run ahead of them by more than `usize::MAX`: the parser
///   gives an end tag only for the start tag on top of its stack of open
///   elements, or right after the start tag of an empty element, and that
///   stack is a vector.
#[verifier::external_body]
fn open_source<'a>(bytes: &'a [u8], options: &ReaderOptions) -> (source: EventSource<'a>)
    ensures
        pending(source) == document_events(bytes@, *options),
        ends_once(pending(source)),
        nesting_fits(0, pending(source)),
{
    let config = ParserConfig::new()
        .trim_whitespace(options.trim_whitespace)
        .whitespace_to_characters(options.whitespace_to_characters)
        .cdata_to_characters(options.cdata_to_characters)
        .ignore_comments(options.ignore_comments)
        .coalesce_characters(options.coalesce_characters);
    EventSource { reader: EventReader::new_with_config(bytes, config) }
}

/// Calls `EventReader::next` and hands the event on as an [`Event`], field
/// by field, or the error as it is.
///
/// Assumed: the call gives the first of the pending outcomes and leaves the
/// rest pending; where only one is pending, it stays pending. The parser's
/// documentation does not rule out that it panics on some document.
#[verifier::external_body]
pub(crate) fn read_next(source: &mut EventSource) -> (outcome: Outcome)
    ensures
        pending(*old(source)).len() > 0,
        outcome == pending(*old(source))[0],
        pending(*final(source)) == if pending(*old(source)).len() > 1 {
            pending(*old(source)).drop_first()
        } else {
            pending(*old(source))
        },
{
    Ok(match source.reader.next()? {
        XmlEvent::StartDocument { version, encoding, standalone } => Event::StartDocument { version, encoding, standalone },
        XmlEvent::EndDocument => Event::EndDocument,
        XmlEvent::ProcessingInstruction { name, data } => Event::ProcessingInstruction { name, data },
        XmlEvent::StartElement { name, attributes, namespace } => Event::StartElement {
            name: Name { local_name: name.local_name, namespace: name.namespace, prefix: name.prefix }, attributes, namespace },
        XmlEvent::EndElement { name } => Event::EndElement {
            name: Name { local_name: name.local_name, namespace: name.namespace, prefix: name.prefix } },
        XmlEvent::CData(text) => Event::CData(text),
        XmlEvent::Comment(text) => Event::Comment(text),
        XmlEvent::Characters(text) => Event::Characters(text),
        XmlEvent::Whitespace(text) => Event::Whitespace(text),
    })
}

} // verus!
