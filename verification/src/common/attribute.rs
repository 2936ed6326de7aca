//! The binding configuration of one field or type, and how it is read from
//! annotations.

use vstd::prelude::*;
use vstd::std_specs::cmp::PartialEqSpecImpl;
use crate::common::namespaces::NamespaceTable;
use crate::common::text::{declared, split_declaration, unquoted, without_quotes};
use crate::common::token::{Annotation, Delimiter, Token};
use crate::errors::de::{BadNamespaceError, ElementNameError};
use crate::text::{same_str, same_text, text_of};

verus! {

/// Mathematical value of a [`YaSerdeAttribute`].
pub struct BindingView {
    pub attribute: bool,
    pub default: Option<Seq<char>>,
    pub default_namespace: Option<Seq<char>>,
    pub flatten: bool,
    pub namespaces: Map<Option<Seq<char>>, Seq<char>>,
    pub prefix: Option<Seq<char>>,
    pub rename: Option<Seq<char>>,
    pub skip_serializing: bool,
    pub skip_serializing_if: Option<Seq<char>>,
    pub text: bool,
}

/// How one field, or one type, is bound to XML.
#[derive(Debug, Clone)]
pub struct YaSerdeAttribute {
    pub attribute: bool,
    pub default: Option<String>,
    pub default_namespace: Option<String>,
    pub flatten: bool,
    pub namespaces: NamespaceTable,
    pub prefix: Option<String>,
    pub rename: Option<String>,
    pub skip_serializing: bool,
    pub skip_serializing_if: Option<String>,
    pub text: bool,
}

/// The keys that an annotation may hold.
#[derive(Debug, Clone, Copy, PartialEq, Eq, Structural)]
pub enum Key {
    Attribute,
    Default,
    DefaultNamespace,
    Flatten,
    Namespace,
    Prefix,
    Rename,
    SkipSerializing,
    SkipSerializingIf,
    Text,
    Unknown,
}

impl Key {
    /// Whether the key is followed by `=` and a literal.
    pub open spec fn takes_value(self) -> bool {
        self is Default || self is DefaultNamespace || self is Namespace || self is Prefix || self is Rename
            || self is SkipSerializingIf
    }
}

/// The key that an identifier names.
pub open spec fn key_named(name: Seq<char>) -> Key {
    if name == "attribute"@ {
        Key::Attribute
    } else if name == "default"@ {
        Key::Default
    } else if name == "default_namespace"@ {
        Key::DefaultNamespace
    } else if name == "flatten"@ {
        Key::Flatten
    } else if name == "namespace"@ {
        Key::Namespace
    } else if name == "prefix"@ {
        Key::Prefix
    } else if name == "rename"@ {
        Key::Rename
    } else if name == "skip_serializing"@ {
        Key::SkipSerializing
    } else if name == "skip_serializing_if"@ {
        Key::SkipSerializingIf
    } else if name == "text"@ {
        Key::Text
    } else {
        Key::Unknown
    }
}

/// Each of the ten keys is named by its own name.
pub proof fn lemma_key_names()
    ensures
        key_named("attribute"@) == Key::Attribute,
        key_named("default"@) == Key::Default,
        key_named("default_namespace"@) == Key::DefaultNamespace,
        key_named("flatten"@) == Key::Flatten,
        key_named("namespace"@) == Key::Namespace,
        key_named("prefix"@) == Key::Prefix,
        key_named("rename"@) == Key::Rename,
        key_named("skip_serializing"@) == Key::SkipSerializing,
        key_named("skip_serializing_if"@) == Key::SkipSerializingIf,
        key_named("text"@) == Key::Text,
{
    reveal_strlit("attribute");
    reveal_strlit("default");
    reveal_strlit("default_namespace");
    reveal_strlit("flatten");
    reveal_strlit("namespace");
    reveal_strlit("prefix");
    reveal_strlit("rename");
    reveal_strlit("skip_serializing");
    reveal_strlit("skip_serializing_if");
    reveal_strlit("text");
    assert("attribute"@[0] == 'a' && "flatten"@[0] == 'f' && "namespace"@[0] == 'n' && "prefix"@[0] == 'p');
    assert("default"@.len() == 7 && "default_namespace"@.len() == 17 && "rename"@.len() == 6);
    assert("skip_serializing"@.len() == 16 && "skip_serializing_if"@.len() == 19 && "text"@.len() == 4);
    assert("default"@[0] == 'd' && "rename"@[0] == 'r' && "text"@[0] == 't');
}

/// The value that stands at `at` in `tokens`: the text of a literal that
/// follows `=`, without its quotes.
pub open spec fn value_at(tokens: Seq<Token>, at: int) -> Option<Seq<char>> {
    if 0 <= at && at + 1 < tokens.len() && tokens[at] == Token::Punct('=') {
        match tokens[at + 1] {
            Token::Literal(text) => Some(without_quotes(text@)),
            _ => None,
        }
    } else {
        None
    }
}

/// The configuration after `key` was read with `value`.
pub open spec fn with_key(config: BindingView, key: Key, value: Option<Seq<char>>) -> BindingView {
    match key {
        Key::Attribute => BindingView { attribute: true, ..config },
        Key::Default => BindingView { default: value, ..config },
        Key::DefaultNamespace => BindingView { default_namespace: value, ..config },
        Key::Flatten => BindingView { flatten: true, ..config },
        Key::Namespace => match value {
            Some(text) => match declared(text) {
                Some((prefix, uri)) => BindingView { namespaces: config.namespaces.insert(prefix, uri), ..config },
                None => config,
            },
            None => config,
        },
        Key::Prefix => BindingView { prefix: value, ..config },
        Key::Rename => BindingView { rename: value, ..config },
        Key::SkipSerializing => BindingView { skip_serializing: true, ..config },
        Key::SkipSerializingIf => BindingView { skip_serializing_if: value, ..config },
        Key::Text => BindingView { text: true, ..config },
        Key::Unknown => config,
    }
}

/// Where the scan goes on after the token at `at`: a key that takes a value
/// takes the two tokens after it with it, whatever they are.
pub open spec fn after_token(tokens: Seq<Token>, at: int) -> int {
    match tokens[at] {
        Token::Ident(name) => if key_named(name@).takes_value() {
            at + 3
        } else {
            at + 1
        },
        _ => at + 1,
    }
}

/// The configuration after the token at `at` was read.
pub open spec fn with_token(config: BindingView, tokens: Seq<Token>, at: int) -> BindingView {
    match tokens[at] {
        Token::Ident(name) => with_key(config, key_named(name@), value_at(tokens, at + 1)),
        _ => config,
    }
}

/// The configuration after the tokens from `at` on were read, in order.
pub open spec fn scanned(config: BindingView, tokens: Seq<Token>, at: int) -> BindingView
    decreases tokens.len() - at,
{
    if at < 0 || at >= tokens.len() {
        config
    } else if after_token(tokens, at) >= tokens.len() {
        with_token(config, tokens, at)
    } else {
        scanned(with_token(config, tokens, at), tokens, after_token(tokens, at))
    }
}

/// The tokens that an annotation contributes: those inside the parentheses
/// that follow the path `yaserde`, and nothing for any other annotation.
pub open spec fn entries_of(annotation: Annotation) -> Seq<Token> {
    if text_of(annotation.path) == Some("yaserde"@) && annotation.tokens.len() > 0 {
        match annotation.tokens[0] {
            Token::Group(Delimiter::Parenthesis, inner) => inner@,
            _ => Seq::empty(),
        }
    } else {
        Seq::empty()
    }
}

/// The configuration with nothing set.
pub open spec fn unset() -> BindingView {
    BindingView {
        attribute: false,
        default: None,
        default_namespace: None,
        flatten: false,
        namespaces: Map::empty(),
        prefix: None,
        rename: None,
        skip_serializing: false,
        skip_serializing_if: None,
        text: false,
    }
}

/// The configuration that `annotations` describe: each one is read in turn,
/// and a later entry of a key replaces an earlier one.
pub open spec fn parsed(annotations: Seq<Annotation>) -> BindingView
    decreases annotations.len(),
{
    if annotations.len() == 0 {
        unset()
    } else {
        scanned(parsed(annotations.drop_last()), entries_of(annotations.last()), 0)
    }
}

/// Where the value of a field stands in the document.
#[derive(Debug, Clone, Copy, PartialEq, Eq, Structural)]
pub enum Binding {
    /// In an attribute of the enclosing element.
    Attribute,
    /// In the text of the enclosing element.
    Text,
    /// In the content of the enclosing element, without an element of its
    /// own.
    Flatten,
    /// In a child element.
    Element,
}

/// The binding that a configuration asks for. Where it asks for more than
/// one, an attribute goes before text, and text before flattening.
pub open spec fn binding_of(config: BindingView) -> Binding {
    if config.attribute {
        Binding::Attribute
    } else if config.text {
        Binding::Text
    } else if config.flatten {
        Binding::Flatten
    } else {
        Binding::Element
    }
}

/// The prefix that an element of the type is written with.
pub open spec fn prefix_text(config: BindingView) -> Seq<char> {
    if config.default_namespace == config.prefix {
        Seq::empty()
    } else {
        match config.prefix {
            Some(prefix) => prefix + ":"@,
            None => Seq::empty(),
        }
    }
}

/// The prefix whose namespace an element is held to.
pub open spec fn configured_prefix(config: BindingView, prefix: Option<Seq<char>>, take_root_prefix: bool) -> Option<
    Seq<char>,
> {
    if take_root_prefix {
        config.prefix
    } else {
        prefix
    }
}

/// Whether an element observed in `observed` passes the guard for `prefix`:
/// an element in no namespace always does, any other only where `prefix` is
/// declared with exactly that URI.
pub open spec fn namespace_matches(config: BindingView, prefix: Option<Seq<char>>, observed: Option<Seq<char>>) -> bool {
    match observed {
        Some(uri) => config.namespaces.contains_key(prefix) && config.namespaces[prefix] == uri,
        None => true,
    }
}

/// The URI that the guard expects for `prefix`: the declared one, or the
/// empty text where none is declared.
pub open spec fn expected_namespace(config: BindingView, prefix: Option<Seq<char>>) -> Seq<char> {
    if config.namespaces.contains_key(prefix) {
        config.namespaces[prefix]
    } else {
        Seq::empty()
    }
}

impl View for YaSerdeAttribute {
    type V = BindingView;

    open spec fn view(&self) -> BindingView {
        BindingView {
            attribute: self.attribute,
            default: text_of(self.default),
            default_namespace: text_of(self.default_namespace),
            flatten: self.flatten,
            namespaces: self.namespaces@,
            prefix: text_of(self.prefix),
            rename: text_of(self.rename),
            skip_serializing: self.skip_serializing,
            skip_serializing_if: text_of(self.skip_serializing_if),
            text: self.text,
        }
    }
}

impl PartialEq for YaSerdeAttribute {
    fn eq(&self, other: &YaSerdeAttribute) -> (same: bool) {
        self.attribute == other.attribute && same_text(&self.default, &other.default) && same_text(
            &self.default_namespace,
            &other.default_namespace,
        ) && self.flatten == other.flatten && self.namespaces == other.namespaces && same_text(
            &self.prefix,
            &other.prefix,
        ) && same_text(&self.rename, &other.rename) && self.skip_serializing == other.skip_serializing
            && same_text(&self.skip_serializing_if, &other.skip_serializing_if) && self.text == other.text
    }
}

impl PartialEqSpecImpl for YaSerdeAttribute {
    open spec fn obeys_eq_spec() -> bool {
        true
    }

    open spec fn eq_spec(&self, other: &YaSerdeAttribute) -> bool {
        self.agrees_with(other)
    }
}

impl Default for YaSerdeAttribute {
    fn default() -> (config: Self)
        ensures
            config.wf(),
            config@ == unset(),
    {
        YaSerdeAttribute {
            attribute: false,
            default: None,
            default_namespace: None,
            flatten: false,
            namespaces: NamespaceTable::new(),
            prefix: None,
            rename: None,
            skip_serializing: false,
            skip_serializing_if: None,
            text: false,
        }
    }
}

/// The key that `name` names.
fn key_of(name: &str) -> (key: Key)
    ensures
        key == key_named(name@),
{
    if same_str(name, "attribute") {
        Key::Attribute
    } else if same_str(name, "default") {
        Key::Default
    } else if same_str(name, "default_namespace") {
        Key::DefaultNamespace
    } else if same_str(name, "flatten") {
        Key::Flatten
    } else if same_str(name, "namespace") {
        Key::Namespace
    } else if same_str(name, "prefix") {
        Key::Prefix
    } else if same_str(name, "rename") {
        Key::Rename
    } else if same_str(name, "skip_serializing") {
        Key::SkipSerializing
    } else if same_str(name, "skip_serializing_if") {
        Key::SkipSerializingIf
    } else if same_str(name, "text") {
        Key::Text
    } else {
        Key::Unknown
    }
}

/// The value that stands at `at` in `tokens`.
fn get_value(tokens: &Vec<Token>, at: usize) -> (value: Option<String>)
    ensures
        text_of(value) == value_at(tokens@, at as int),
{
    if at < tokens.len() && tokens.len() - at >= 2 {
        match (&tokens[at], &tokens[at + 1]) {
            (Token::Punct(operator), Token::Literal(text)) => {
                if *operator == '=' {
                    Some(unquoted(text.as_str()))
                } else {
                    None
                }
            },
            _ => None,
        }
    } else {
        None
    }
}

impl YaSerdeAttribute {
    /// The invariant of a configuration: that of its namespace table.
    pub open spec fn wf(&self) -> bool {
        self.namespaces.wf()
    }

    /// What `==` computes: the two configurations agree field by field,
    /// and their tables as tables do.
    pub open spec fn agrees_with(&self, other: &YaSerdeAttribute) -> bool {
        &&& self.attribute == other.attribute
        &&& text_of(self.default) == text_of(other.default)
        &&& text_of(self.default_namespace) == text_of(other.default_namespace)
        &&& self.flatten == other.flatten
        &&& self.namespaces.agrees_with(&other.namespaces)
        &&& text_of(self.prefix) == text_of(other.prefix)
        &&& text_of(self.rename) == text_of(other.rename)
        &&& self.skip_serializing == other.skip_serializing
        &&& text_of(self.skip_serializing_if) == text_of(other.skip_serializing_if)
        &&& self.text == other.text
    }

    /// For configurations whose tables bind no prefix twice, `==` holds
    /// exactly where the two have the same value.
    pub proof fn lemma_eq(&self, other: &YaSerdeAttribute)
        requires
            self.wf(),
            other.wf(),
        ensures
            self.agrees_with(other) <==> self@ == other@,
    {
        self.namespaces.lemma_eq(&other.namespaces);
    }

    /// Reads the configuration that `attrs` describe.
    pub fn parse(attrs: &[Annotation]) -> (config: YaSerdeAttribute)
        ensures
            config.wf(),
            config@ == parsed(attrs@),
    {
        let mut attribute = YaSerdeAttribute::default();
        let mut index: usize = 0;
        proof {
            assert(attrs@.take(0) =~= Seq::<Annotation>::empty());
        }
        while index < attrs.len()
            invariant
                index <= attrs.len(),
                attribute.wf(),
                attribute@ == parsed(attrs@.take(index as int)),
            decreases attrs.len() - index,
        {
            let attr = &attrs[index];
            proof {
                let next = attrs@.take(index + 1);
                assert(next.drop_last() =~= attrs@.take(index as int));
                assert(next.last() == *attr);
            }
            let named = match &attr.path {
                Some(path) => same_str(path.as_str(), "yaserde"),
                None => false,
            };
            if named && attr.tokens.len() > 0 {
                if let Token::Group(Delimiter::Parenthesis, inner) = &attr.tokens[0] {
                    let ghost start = attribute@;
                    let mut at: usize = 0;
                    while at < inner.len()
                        invariant
                            attribute.wf(),
                            scanned(attribute@, inner@, at as int) == scanned(start, inner@, 0),
                        decreases inner.len() - at,
                    {
                        let ghost before = attribute@;
                        let ghost read = at as int;
                        at = attribute.set_value(inner, at);
                        proof {
                            assert(scanned(before, inner@, read) == scanned(attribute@, inner@, at as int));
                        }
                    }
                }
            }
            index += 1;
        }
        proof {
            assert(attrs@.take(attrs@.len() as int) =~= attrs@);
        }
        attribute
    }

    /// Reads the token at `at`, and gives the place where the scan goes on.
    fn set_value(&mut self, tokens: &Vec<Token>, at: usize) -> (next: usize)
        requires
            old(self).wf(),
            at < tokens.len(),
        ensures
            final(self).wf(),
            final(self)@ == with_token(old(self)@, tokens@, at as int),
            at < next <= tokens.len(),
            next == after_token(tokens@, at as int) || (next == tokens.len() && after_token(tokens@, at as int)
                >= tokens.len()),
    {
        if let Token::Ident(ident) = &tokens[at] {
            let key = key_of(ident.as_str());
            match key {
                Key::Attribute => {
                    self.attribute = true;
                },
                Key::Default => {
                    self.default = get_value(tokens, at + 1);
                },
                Key::DefaultNamespace => {
                    self.default_namespace = get_value(tokens, at + 1);
                },
                Key::Flatten => {
                    self.flatten = true;
                },
                Key::Namespace => {
                    if let Some(namespace) = get_value(tokens, at + 1) {
                        if let Some((prefix, uri)) = split_declaration(namespace.as_str()) {
                            self.namespaces.insert(prefix, uri);
                        }
                    }
                },
                Key::Prefix => {
                    self.prefix = get_value(tokens, at + 1);
                },
                Key::Rename => {
                    self.rename = get_value(tokens, at + 1);
                },
                Key::SkipSerializing => {
                    self.skip_serializing = true;
                },
                Key::SkipSerializingIf => {
                    self.skip_serializing_if = get_value(tokens, at + 1);
                },
                Key::Text => {
                    self.text = true;
                },
                Key::Unknown => {},
            }
            let valued = match key {
                Key::Default | Key::DefaultNamespace | Key::Namespace | Key::Prefix | Key::Rename | Key::SkipSerializingIf => true,
                _ => false,
            };
            if valued && tokens.len() - at > 3 {
                at + 3
            } else if valued {
                tokens.len()
            } else {
                at + 1
            }
        } else {
            at + 1
        }
    }

    /// Where the value of the field stands. Where the configuration asks
    /// for more than one place, an attribute goes before text, and text
    /// before flattening.
    pub fn binding(&self) -> (kind: Binding)
        ensures
            kind == binding_of(self@),
    {
        if self.attribute {
            Binding::Attribute
        } else if self.text {
            Binding::Text
        } else if self.flatten {
            Binding::Flatten
        } else {
            Binding::Element
        }
    }

    /// The name of the element or attribute: the one given by `rename`, or
    /// else `default_name`.
    pub fn xml_element_name(&self, default_name: &str) -> (name: String)
        ensures
            name@ == match self@.rename {
                Some(rename) => rename,
                None => default_name@,
            },
    {
        match &self.rename {
            Some(rename) => rename.clone(),
            None => default_name.to_owned(),
        }
    }

    /// The prefix, with its colon, that elements of the type are written
    /// with: none where the prefix names the default namespace.
    pub fn prefix_namespace(&self) -> (text: String)
        ensures
            text@ == prefix_text(self@),
    {
        if same_text(&self.default_namespace, &self.prefix) {
            String::new()
        } else {
            match &self.prefix {
                Some(prefix) => {
                    let mut text = prefix.clone();
                    text.append(":");
                    text
                },
                None => String::new(),
            }
        }
    }

    /// The URI declared for the prefix that applies: the configuration's
    /// own where `take_root_prefix` is set, and `prefix` otherwise.
    pub fn declared_namespace(&self, prefix: &Option<String>, take_root_prefix: bool) -> (uri: Option<&String>)
        requires
            self.wf(),
        ensures
            match uri {
                Some(declared) => {
                    &&& self@.namespaces.contains_key(configured_prefix(self@, text_of(*prefix), take_root_prefix))
                    &&& self@.namespaces[configured_prefix(self@, text_of(*prefix), take_root_prefix)] == declared@
                },
                None => !self@.namespaces.contains_key(
                    configured_prefix(self@, text_of(*prefix), take_root_prefix),
                ),
            },
    {
        let configured_prefix = if take_root_prefix {
            &self.prefix
        } else {
            prefix
        };
        self.namespaces.get(configured_prefix)
    }

    /// Holds the namespace observed on an element against the one declared
    /// for the prefix that applies. An element in no namespace passes; any
    /// other passes only in exactly the declared namespace. The failure
    /// names the element, the declared URI (empty where the prefix is not
    /// declared) and the observed one.
    pub fn get_namespace_matching(
        &self,
        prefix: &Option<String>,
        element_namespace: &Option<String>,
        element_name: &str,
        take_root_prefix: bool,
    ) -> (result: Result<(), BadNamespaceError>)
        requires
            self.wf(),
        ensures
            result is Ok <==> namespace_matches(
                self@,
                configured_prefix(self@, text_of(*prefix), take_root_prefix),
                text_of(*element_namespace),
            ),
            result matches Err(error) ==> {
                &&& error.element_name@ == element_name@
                &&& error.mismatch matches ElementNameError::WrongNamespace { expected, actual }
                &&& expected@ == expected_namespace(
                    self@,
                    configured_prefix(self@, text_of(*prefix), take_root_prefix),
                )
                &&& Some(actual@) == text_of(*element_namespace)
            },
    {
        match element_namespace {
            Some(namespace) => {
                let expected = match self.declared_namespace(prefix, take_root_prefix) {
                    Some(declared) => {
                        if *declared == *namespace {
                            return Ok(());
                        }
                        declared.clone()
                    },
                    None => String::new(),
                };
                Err(
                    BadNamespaceError::new(
                        element_name.to_owned(),
                        ElementNameError::new_wrong_namespace(expected, namespace.clone()),
                    ),
                )
            },
            None => Ok(()),
        }
    }
}

} // verus!
