use std::str::FromStr;

use proc_macro2::{Span, TokenStream, TokenTree};
use syn::punctuated::Punctuated;
use syn::token::{Bracket, Pound};
use syn::AttrStyle::Outer;
use syn::{Attribute, Ident, Path, PathArguments, PathSegment};

use yaserde::common::text::{split_declaration, unquoted};
use yaserde::common::{Annotation, Binding, Delimiter, NamespaceTable, Token, YaSerdeAttribute};
use yaserde::errors::de::ElementNameError;

fn tokens_of(stream: TokenStream) -> Vec<Token> {
    stream
        .into_iter()
        .map(|tree| match tree {
            TokenTree::Group(group) => {
                let delimiter = match group.delimiter() {
                    proc_macro2::Delimiter::Parenthesis => Delimiter::Parenthesis,
                    proc_macro2::Delimiter::Brace => Delimiter::Brace,
                    proc_macro2::Delimiter::Bracket => Delimiter::Bracket,
                    proc_macro2::Delimiter::None => Delimiter::Invisible,
                };
                Token::Group(delimiter, tokens_of(group.stream()))
            },
            TokenTree::Ident(ident) => Token::Ident(ident.to_string()),
            TokenTree::Punct(punct) => Token::Punct(punct.as_char()),
            TokenTree::Literal(literal) => Token::Literal(literal.to_string()),
        })
        .collect()
}

fn annotations_of(attributes: &[Attribute]) -> Vec<Annotation> {
    attributes
        .iter()
        .map(|attribute| Annotation {
            path: attribute.path.get_ident().map(|ident| ident.to_string()),
            tokens: tokens_of(attribute.tokens.clone()),
        })
        .collect()
}

fn attribute(path: &str, tokens: &str) -> Attribute {
    let mut punctuated = Punctuated::new();
    punctuated.push(PathSegment { ident: Ident::new(path, Span::call_site()), arguments: PathArguments::None });
    Attribute {
        pound_token: Pound { spans: [Span::call_site()] },
        style: Outer,
        bracket_token: Bracket { span: Span::call_site() },
        path: Path { leading_colon: None, segments: punctuated },
        tokens: TokenStream::from_str(tokens).unwrap(),
    }
}

fn parse(tokens: &str) -> YaSerdeAttribute {
    YaSerdeAttribute::parse(&annotations_of(&[attribute("yaserde", tokens)]))
}

fn unset() -> YaSerdeAttribute {
    YaSerdeAttribute {
        attribute: false,
        default: None,
        default_namespace: None,
        flatten: false,
        namespaces: NamespaceTable::new(),
        prefix: None,
        rename: None,
        skip_serializing: false,
        skip_serializing_if: None,
        text: false,
    }
}

#[test]
fn parse_empty_attributes() {
    let attributes = vec![];
    let attrs = YaSerdeAttribute::parse(&attributes);

    assert_eq!(
        YaSerdeAttribute {
            attribute: false,
            default: None,
            default_namespace: None,
            flatten: false,
            namespaces: NamespaceTable::new(),
            prefix: None,
            rename: None,
            skip_serializing: false,
            skip_serializing_if: None,
            text: false,
        },
        attrs
    );
}

#[test]
fn parse_attributes() {
    let mut punctuated = Punctuated::new();
    punctuated.push(PathSegment { ident: Ident::new("yaserde", Span::call_site()), arguments: PathArguments::None });

    let attributes = vec![Attribute {
        pound_token: Pound { spans: [Span::call_site()] },
        style: Outer,
        bracket_token: Bracket { span: Span::call_site() },
        path: Path { leading_colon: None, segments: punctuated },
        tokens: TokenStream::from_str("(attribute)").unwrap(),
    }];

    let attrs = YaSerdeAttribute::parse(&annotations_of(&attributes));

    assert_eq!(
        YaSerdeAttribute {
            attribute: true,
            default: None,
            default_namespace: None,
            flatten: false,
            namespaces: NamespaceTable::new(),
            prefix: None,
            rename: None,
            skip_serializing: false,
            skip_serializing_if: None,
            text: false,
        },
        attrs
    );
}

#[test]
fn only_parse_yaserde_attributes() {
    let mut punctuated = Punctuated::new();
    punctuated.push(PathSegment { ident: Ident::new("serde", Span::call_site()), arguments: PathArguments::None });

    let attributes = vec![Attribute {
        pound_token: Pound { spans: [Span::call_site()] },
        style: Outer,
        bracket_token: Bracket { span: Span::call_site() },
        path: Path { leading_colon: None, segments: punctuated },
        tokens: TokenStream::from_str("(flatten)").unwrap(),
    }];

    let attrs = YaSerdeAttribute::parse(&annotations_of(&attributes));

    assert_eq!(
        YaSerdeAttribute {
            attribute: false,
            default: None,
            default_namespace: None,
            flatten: false,
            namespaces: NamespaceTable::new(),
            prefix: None,
            rename: None,
            skip_serializing: false,
            skip_serializing_if: None,
            text: false,
        },
        attrs
    );
}

#[test]
fn parse_attributes_with_values() {
    let mut punctuated = Punctuated::new();
    punctuated.push(PathSegment { ident: Ident::new("yaserde", Span::call_site()), arguments: PathArguments::None });

    let attributes = vec![Attribute {
        pound_token: Pound { spans: [Span::call_site()] },
        style: Outer,
        bracket_token: Bracket { span: Span::call_site() },
        path: Path { leading_colon: None, segments: punctuated },
        tokens: TokenStream::from_str(
            "(attribute, flatten, default_namespace=\"example\", namespace=\"example: http://example.org\")",
        )
        .unwrap(),
    }];

    let attrs = YaSerdeAttribute::parse(&annotations_of(&attributes));

    let mut namespaces = NamespaceTable::new();
    namespaces.insert(Some("example".to_string()), "http://example.org".to_string());

    assert_eq!(
        YaSerdeAttribute {
            attribute: true,
            default: None,
            default_namespace: Some("example".to_string()),
            flatten: true,
            namespaces,
            prefix: None,
            rename: None,
            skip_serializing: false,
            skip_serializing_if: None,
            text: false,
        },
        attrs
    );
}

#[test]
fn parse_reads_annotations_written_as_plain_tokens() {
    let annotation = Annotation {
        path: Some("yaserde".to_string()),
        tokens: vec![Token::Group(
            Delimiter::Parenthesis,
            vec![
                Token::Ident("attribute".to_string()),
                Token::Punct(','),
                Token::Ident("rename".to_string()),
                Token::Punct('='),
                Token::Literal("\"id\"".to_string()),
            ],
        )],
    };
    let attrs = YaSerdeAttribute::parse(&[annotation]);
    assert_eq!(YaSerdeAttribute { attribute: true, rename: Some("id".to_string()), ..unset() }, attrs);
}

#[test]
fn parse_example_of_a_default_namespace() {
    let attrs = parse("(attribute, default_namespace=\"ex\", namespace=\"ex: http://example.org\")");
    assert!(attrs.attribute);
    assert_eq!(attrs.default_namespace, Some("ex".to_string()));
    assert_eq!(attrs.namespaces.len(), 1);
    assert_eq!(attrs.namespaces.get(&Some("ex".to_string())), Some(&"http://example.org".to_string()));
    assert_eq!(attrs.namespaces.get(&None), None);
    assert_eq!(attrs.prefix, None);
    assert_eq!(attrs.prefix_namespace(), "");
}

#[test]
fn parse_reads_every_key() {
    let attrs = parse(
        "(attribute, default=\"make\", default_namespace=\"a\", flatten, namespace=\"a: http://a\", \
         namespace=\"http://default\", prefix=\"b\", rename=\"other\", skip_serializing, \
         skip_serializing_if=\"is_empty\", text)",
    );
    let mut namespaces = NamespaceTable::new();
    namespaces.insert(None, "http://default".to_string());
    namespaces.insert(Some("a".to_string()), "http://a".to_string());
    assert_eq!(
        YaSerdeAttribute {
            attribute: true,
            default: Some("make".to_string()),
            default_namespace: Some("a".to_string()),
            flatten: true,
            namespaces,
            prefix: Some("b".to_string()),
            rename: Some("other".to_string()),
            skip_serializing: true,
            skip_serializing_if: Some("is_empty".to_string()),
            text: true,
        },
        attrs
    );
}

#[test]
fn a_later_entry_replaces_an_earlier_one() {
    let attrs = parse("(rename=\"one\", rename=\"two\", namespace=\"p: http://one\", namespace=\"p: http://two\")");
    assert_eq!(attrs.rename, Some("two".to_string()));
    assert_eq!(attrs.namespaces.len(), 1);
    assert_eq!(attrs.namespaces.get(&Some("p".to_string())), Some(&"http://two".to_string()));

    let first = attribute("yaserde", "(rename=\"one\", attribute)");
    let other = attribute("serde", "(rename=\"lost\")");
    let second = attribute("yaserde", "(rename=\"two\")");
    let attrs = YaSerdeAttribute::parse(&annotations_of(&[first, other, second]));
    assert_eq!(YaSerdeAttribute { attribute: true, rename: Some("two".to_string()), ..unset() }, attrs);
}

#[test]
fn unknown_keys_are_ignored() {
    let attrs = parse("(unknown, other=\"value\", text)");
    assert_eq!(YaSerdeAttribute { text: true, ..unset() }, attrs);
}

#[test]
fn a_key_that_takes_a_value_takes_two_tokens_with_it() {
    let attrs = parse("(default, rename=\"lost\", text)");
    assert_eq!(YaSerdeAttribute { text: true, ..unset() }, attrs);

    let attrs = parse("(rename=\"kept\", prefix)");
    assert_eq!(YaSerdeAttribute { rename: Some("kept".to_string()), ..unset() }, attrs);

    let attrs = parse("(rename=\"one\", rename)");
    assert_eq!(unset(), attrs);

    let attrs = parse("(rename=other, text)");
    assert_eq!(YaSerdeAttribute { text: true, ..unset() }, attrs);
}

#[test]
fn a_namespace_without_a_value_or_with_two_separators_binds_nothing() {
    let attrs = parse("(namespace, text, flatten)");
    assert_eq!(YaSerdeAttribute { flatten: true, ..unset() }, attrs);

    let attrs = parse("(namespace=\"a: b: c\", text)");
    assert_eq!(YaSerdeAttribute { text: true, ..unset() }, attrs);
}

#[test]
fn only_parentheses_after_the_path_are_read() {
    let attrs = YaSerdeAttribute::parse(&annotations_of(&[attribute("yaserde", "[attribute]")]));
    assert_eq!(unset(), attrs);
    let attrs = YaSerdeAttribute::parse(&annotations_of(&[attribute("yaserde", "= attribute")]));
    assert_eq!(unset(), attrs);
    let attrs = YaSerdeAttribute::parse(&annotations_of(&[attribute("yaserde", "")]));
    assert_eq!(unset(), attrs);
    let attrs = parse("((attribute), flatten)");
    assert_eq!(YaSerdeAttribute { flatten: true, ..unset() }, attrs);
    let annotation = Annotation { path: None, tokens: tokens_of(TokenStream::from_str("(attribute)").unwrap()) };
    assert_eq!(unset(), YaSerdeAttribute::parse(&[annotation]));
}

#[test]
fn default_is_the_unset_configuration() {
    assert_eq!(unset(), YaSerdeAttribute::default());
}

#[test]
fn equality_tells_configurations_apart() {
    let base = parse("(attribute, namespace=\"p: http://one\", namespace=\"http://d\")");
    assert!(base == parse("(namespace=\"http://d\", namespace=\"p: http://one\", attribute)"));
    assert!(base != parse("(attribute, namespace=\"p: http://two\", namespace=\"http://d\")"));
    assert!(base != parse("(attribute, namespace=\"q: http://one\", namespace=\"http://d\")"));
    assert!(base != parse("(attribute, namespace=\"p: http://one\")"));
    assert!(base != parse("(namespace=\"p: http://one\", namespace=\"http://d\")"));
    assert!(base != parse("(attribute, namespace=\"p: http://one\", namespace=\"http://d\", rename=\"x\")"));
    assert!(base != parse("(attribute, namespace=\"p: http://one\", namespace=\"http://d\", text)"));
}

#[test]
fn binding_puts_an_attribute_before_text_and_text_before_flattening() {
    assert_eq!(parse("(attribute)").binding(), Binding::Attribute);
    assert_eq!(parse("(text)").binding(), Binding::Text);
    assert_eq!(parse("(flatten)").binding(), Binding::Flatten);
    assert_eq!(parse("(rename=\"other\")").binding(), Binding::Element);
    assert_eq!(parse("(flatten, text, attribute)").binding(), Binding::Attribute);
    assert_eq!(parse("(flatten, text)").binding(), Binding::Text);
    assert_eq!(parse("(flatten, attribute)").binding(), Binding::Attribute);
}

#[test]
fn xml_element_name_prefers_the_rename() {
    assert_eq!(parse("(rename=\"other\")").xml_element_name("field"), "other");
    assert_eq!(parse("(attribute)").xml_element_name("field"), "field");
}

#[test]
fn prefix_namespace_is_empty_for_the_default_namespace() {
    assert_eq!(parse("(prefix=\"p\")").prefix_namespace(), "p:");
    assert_eq!(parse("(prefix=\"p\", default_namespace=\"p\")").prefix_namespace(), "");
    assert_eq!(parse("(prefix=\"p\", default_namespace=\"q\")").prefix_namespace(), "p:");
    assert_eq!(parse("(default_namespace=\"q\")").prefix_namespace(), "");
    assert_eq!(parse("(attribute)").prefix_namespace(), "");
}

#[test]
fn the_namespace_guard_passes_the_declared_namespace() {
    let attrs = parse("(prefix=\"p\", namespace=\"p: http://p\", namespace=\"q: http://q\", namespace=\"http://d\")");
    let p = Some("p".to_string());
    let q = Some("q".to_string());
    assert!(attrs.get_namespace_matching(&q, &Some("http://q".to_string()), "item", false).is_ok());
    assert!(attrs.get_namespace_matching(&None, &Some("http://d".to_string()), "item", false).is_ok());
    assert!(attrs.get_namespace_matching(&q, &Some("http://p".to_string()), "item", true).is_ok());
    assert!(attrs.get_namespace_matching(&p, &None, "item", false).is_ok());
    assert!(attrs.get_namespace_matching(&Some("unbound".to_string()), &None, "item", false).is_ok());
}

#[test]
fn the_namespace_guard_fails_with_the_expected_and_the_actual_namespace() {
    let attrs = parse("(prefix=\"p\", namespace=\"p: http://p\", namespace=\"q: http://q\")");
    let q = Some("q".to_string());
    let error = attrs.get_namespace_matching(&q, &Some("http://p".to_string()), "item", false).unwrap_err();
    assert_eq!(error.element_name, "item");
    match error.mismatch {
        ElementNameError::WrongNamespace { expected, actual } => {
            assert_eq!(expected, "http://q");
            assert_eq!(actual, "http://p");
        },
        other => panic!("expected a wrong namespace, got {:?}", other),
    }

    let error = attrs.get_namespace_matching(&q, &Some("http://q".to_string()), "item", true).unwrap_err();
    match error.mismatch {
        ElementNameError::WrongNamespace { expected, actual } => {
            assert_eq!(expected, "http://p");
            assert_eq!(actual, "http://q");
        },
        other => panic!("expected a wrong namespace, got {:?}", other),
    }

    let error = attrs.get_namespace_matching(&None, &Some("http://q".to_string()), "item", false).unwrap_err();
    match error.mismatch {
        ElementNameError::WrongNamespace { expected, actual } => {
            assert_eq!(expected, "");
            assert_eq!(actual, "http://q");
        },
        other => panic!("expected a wrong namespace, got {:?}", other),
    }
}

#[test]
fn unquoted_drops_every_double_quote() {
    assert_eq!(unquoted("\"example\""), "example");
    assert_eq!(unquoted("\"a\\\"b\""), "a\\b");
    assert_eq!(unquoted("plain"), "plain");
    assert_eq!(unquoted("\"\""), "");
    assert_eq!(unquoted(""), "");
    assert_eq!(unquoted("\"é: ü\""), "é: ü");
}

#[test]
fn split_declaration_splits_as_split_does() {
    let samples = [
        "",
        "http://example.org",
        "ex: http://example.org",
        "a: b: c",
        ": ",
        "a: ",
        ": b",
        ": : ",
        "a:b",
        "a :b",
        "a:: b",
        "é: ü",
        ":",
        " ",
        "a: b:",
        "a: b :c",
    ];
    for sample in samples {
        let pieces: Vec<&str> = sample.split(": ").collect();
        let expected = match pieces.len() {
            1 => Some((None, pieces[0].to_string())),
            2 => Some((Some(pieces[0].to_string()), pieces[1].to_string())),
            _ => None,
        };
        assert_eq!(split_declaration(sample), expected, "for {:?}", sample);
    }
}

#[test]
fn namespace_table_binds_each_prefix_once() {
    let mut table = NamespaceTable::new();
    assert_eq!(table.len(), 0);
    assert_eq!(table.get(&None), None);
    table.insert(Some("a".to_string()), "one".to_string());
    table.insert(None, "two".to_string());
    table.insert(Some("a".to_string()), "three".to_string());
    assert_eq!(table.len(), 2);
    assert_eq!(table.get(&Some("a".to_string())), Some(&"three".to_string()));
    assert_eq!(table.get(&None), Some(&"two".to_string()));
    assert_eq!(table.get(&Some("b".to_string())), None);

    let mut other = NamespaceTable::new();
    other.insert(None, "two".to_string());
    assert!(table != other);
    assert!(other != table);
    other.insert(Some("a".to_string()), "three".to_string());
    assert!(table == other);
    other.insert(Some("a".to_string()), "one".to_string());
    assert!(table != other);
}
