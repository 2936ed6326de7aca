//! The events that the cursor hands out, as plain values.

use vstd::prelude::*;
use crate::text::{labelled, labelled_text, same_text, text_of};

verus! {

/// `xml::attribute::OwnedAttribute`: an attribute of a start tag, carried
/// through as the parser gives it.
#[verifier::external_type_specification]
#[verifier::external_body]
pub struct ExOwnedAttribute(xml::attribute::OwnedAttribute);

/// `xml::namespace::Namespace`: the namespaces in scope at a start tag,
/// carried through as the parser gives them.
#[verifier::external_type_specification]
#[verifier::external_body]
pub struct ExNamespace(xml::namespace::Namespace);

/// `xml::common::XmlVersion`: the version in a document declaration, carried
/// through as the parser gives it.
#[verifier::external_type_specification]
#[verifier::external_body]
pub struct ExXmlVersion(xml::common::XmlVersion);

/// Mathematical value of a [`Name`].
pub struct NameView {
    pub local_name: Seq<char>,
    pub namespace: Option<Seq<char>>,
    pub prefix: Option<Seq<char>>,
}

/// Qualified name of an element: its local part, the namespace URI that its
/// prefix is bound to, and the prefix as written.
#[derive(Debug, Clone)]
pub struct Name {
    pub local_name: String,
    pub namespace: Option<String>,
    pub prefix: Option<String>,
}

impl View for Name {
    type V = NameView;

    open spec fn view(&self) -> NameView {
        NameView {
            local_name: self.local_name@,
            namespace: text_of(self.namespace),
            prefix: text_of(self.prefix),
        }
    }
}

impl Name {
    /// The name as it is displayed: the namespace between braces, the
    /// prefix with a colon, and the local name.
    pub open spec fn qualified_text(self) -> Seq<char> {
        let namespace = match self.namespace {
            Some(namespace) => "{"@ + namespace@ + "}"@,
            None => Seq::empty(),
        };
        let prefix = match self.prefix {
            Some(prefix) => prefix@ + ":"@,
            None => Seq::empty(),
        };
        namespace + prefix + self.local_name@
    }

    /// The name as it is displayed.
    pub fn qualified(&self) -> (text: String)
        ensures
            text@ == self.qualified_text(),
    {
        let mut text = String::new();
        if let Some(namespace) = &self.namespace {
            text.append("{");
            text.append(namespace.as_str());
            text.append("}");
        }
        if let Some(prefix) = &self.prefix {
            text.append(prefix.as_str());
            text.append(":");
        }
        text.append(self.local_name.as_str());
        proof {
            assert(text@ =~= self.qualified_text());
        }
        text
    }
}

impl PartialEq for Name {
    fn eq(&self, other: &Name) -> (same: bool) {
        self.local_name == other.local_name && same_text(&self.namespace, &other.namespace)
            && same_text(&self.prefix, &other.prefix)
    }
}

impl vstd::std_specs::cmp::PartialEqSpecImpl for Name {
    open spec fn obeys_eq_spec() -> bool {
        true
    }

    open spec fn eq_spec(&self, other: &Name) -> bool {
        self@ == other@
    }
}

/// One event of the XML pull vocabulary.
#[derive(Debug)]
#[allow(inconsistent_fields)]
pub enum Event {
    StartDocument { version: xml::common::XmlVersion, encoding: String, standalone: Option<bool> },
    EndDocument,
    ProcessingInstruction { name: String, data: Option<String> },
    StartElement {
        name: Name,
        attributes: Vec<xml::attribute::OwnedAttribute>,
        namespace: xml::namespace::Namespace,
    },
    EndElement { name: Name },
    CData(String),
    Comment(String),
    Characters(String),
    Whitespace(String),
}

impl Event {
    /// Events that no operation of the cursor ever surfaces.
    pub open spec fn is_skipped(self) -> bool {
        self is StartDocument || self is ProcessingInstruction || self is Comment
    }

    /// The event in a few words: its kind and, between parentheses, the
    /// name or the text that it carries.
    pub open spec fn description(self) -> Seq<char> {
        match self {
            Event::StartDocument { .. } => "StartDocument"@,
            Event::EndDocument => "EndDocument"@,
            Event::ProcessingInstruction { name, .. } => labelled_text("ProcessingInstruction"@, name@),
            Event::StartElement { name, .. } => labelled_text("StartElement"@, name.qualified_text()),
            Event::EndElement { name } => labelled_text("EndElement"@, name.qualified_text()),
            Event::CData(text) => labelled_text("CData"@, text@),
            Event::Comment(text) => labelled_text("Comment"@, text@),
            Event::Characters(text) => labelled_text("Characters"@, text@),
            Event::Whitespace(text) => labelled_text("Whitespace"@, text@),
        }
    }

    /// The event in a few words.
    pub fn describe(&self) -> (text: String)
        ensures
            text@ == self.description(),
    {
        match self {
            Event::StartDocument { .. } => "StartDocument".to_owned(),
            Event::EndDocument => "EndDocument".to_owned(),
            Event::ProcessingInstruction { name, .. } => labelled("ProcessingInstruction", name.as_str()),
            Event::StartElement { name, .. } => labelled("StartElement", name.qualified().as_str()),
            Event::EndElement { name } => labelled("EndElement", name.qualified().as_str()),
            Event::CData(text) => labelled("CData", text.as_str()),
            Event::Comment(text) => labelled("Comment", text.as_str()),
            Event::Characters(text) => labelled("Characters", text.as_str()),
            Event::Whitespace(text) => labelled("Whitespace", text.as_str()),
        }
    }

    /// Whether the cursor drops this event where it fetches it.
    pub fn skipped(&self) -> (skipped: bool)
        ensures
            skipped == self.is_skipped(),
    {
        match self {
            Event::StartDocument { .. } => true,
            Event::ProcessingInstruction { .. } => true,
            Event::Comment(_) => true,
            _ => false,
        }
    }
}

} // verus!
