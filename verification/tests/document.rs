use yaserde::de::{from_reader, from_str, Deserializer, Event};
use yaserde::errors::de::{Cause, DeserializeError};
use yaserde::YaDeserialize;

#[derive(Debug, PartialEq)]
struct Title {
    text: String,
}

impl YaDeserialize for Title {
    fn deserialize(reader: &mut Deserializer<'_>) -> Result<Self, String> {
        match reader.peek() {
            Ok(Event::StartElement { name, .. }) if name.local_name == "title" => {},
            Ok(_) => return Err("a title is expected".to_string()),
            Err(error) => return Err(error.cause.message()),
        }
        let result = reader.read_inner_value(|inner| inner.next_event());
        match result {
            Ok(Event::Characters(text)) => Ok(Title { text }),
            Ok(_) => Err("a title holds text".to_string()),
            Err(error) => Err(error.cause.message()),
        }
    }
}

#[test]
fn from_str_reads_a_value() {
    let title: Title = from_str("<title> A tale </title>").unwrap();
    assert_eq!(title, Title { text: "A tale".to_string() });
}

#[test]
fn from_reader_reads_a_value() {
    let title: Title = from_reader("<title>A tale</title>".as_bytes()).unwrap();
    assert_eq!(title, Title { text: "A tale".to_string() });
}

#[test]
fn from_reader_wraps_the_message_of_the_value() {
    let result: Result<Title, DeserializeError> = from_reader("<other>A tale</other>".as_bytes());
    match result {
        Err(DeserializeError { cause: Cause::Message(error) }) => {
            assert_eq!(error.0, "a title is expected");
            assert_eq!(error.message(), "Error: 'a title is expected'");
        },
        other => panic!("expected a message, got {:?}", other),
    }
}

#[test]
fn from_str_keeps_the_text_and_the_cause() {
    let document = "<title>A tale</other>";
    let error = from_str::<Title>(document).unwrap_err();
    assert_eq!(error.text, document);
    assert_eq!(error.message(), "Error while deserializing xml from string: <title>A tale</other>");
    match error.cause {
        Some(DeserializeError { cause: Cause::Message(message) }) => {
            assert!(message.0.contains("other"), "unexpected message {:?}", message.0);
        },
        other => panic!("expected a message, got {:?}", other),
    }
}
