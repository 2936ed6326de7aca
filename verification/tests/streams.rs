use yaserde::de::{Deserializer, Event, EventSource, ReaderOptions};
use yaserde::errors::de::{Cause, DeserializeError};

const PIECES: [&str; 9] = ["<a>", "</a>", "<b>", "</b>", "<c/>", "text", "<!--c-->", "<?p d?>", " "];

fn documents(pieces: usize) -> Vec<String> {
    let mut all = vec![String::new()];
    let mut last = vec![String::new()];
    for _ in 0..pieces {
        let mut next = Vec::new();
        for document in &last {
            for piece in PIECES {
                next.push(format!("{}{}", document, piece));
            }
        }
        all.extend(next.iter().cloned());
        last = next;
    }
    all
}

fn walk(document: &str, options: &ReaderOptions) {
    let mut cursor = Deserializer::new(EventSource::open(document.as_bytes(), options));
    let mut depth: usize = 0;
    let mut steps = 0;
    let last = loop {
        steps += 1;
        assert!(steps <= 2 * document.len() + 4, "no end in {:?}", document);
        let peeked = match cursor.peek() {
            Ok(event) => Some(format!("{:?}", event)),
            Err(_) => None,
        };
        assert_eq!(cursor.depth(), depth, "a peek moved the depth in {:?}", document);
        let taken = cursor.next_event();
        assert_eq!(taken.as_ref().ok().map(|event| format!("{:?}", event)), peeked, "in {:?}", document);
        match &taken {
            Ok(Event::StartElement { .. }) => depth += 1,
            Ok(Event::EndElement { .. }) => {
                assert!(depth > 0, "an end tag without a start tag in {:?}", document);
                depth -= 1;
            },
            Ok(Event::StartDocument { .. }) | Ok(Event::ProcessingInstruction { .. }) | Ok(Event::Comment(_)) => {
                panic!("a hidden event in {:?}", document)
            },
            _ => {},
        }
        assert_eq!(cursor.depth(), depth, "in {:?}", document);
        match taken {
            Ok(Event::EndDocument) => {
                assert_eq!(depth, 0, "the document ended inside an element in {:?}", document);
                break None;
            },
            Err(DeserializeError { cause: Cause::Reader(error) }) => break Some(error),
            Err(other) => panic!("unexpected {:?} in {:?}", other, document),
            Ok(_) => {},
        }
    };
    for _ in 0..3 {
        let again = match cursor.next_event() {
            Ok(Event::EndDocument) => None,
            Err(DeserializeError { cause: Cause::Reader(error) }) => Some(error),
            other => panic!("{:?} after the end in {:?}", other, document),
        };
        assert_eq!(again, last, "in {:?}", document);
        assert_eq!(cursor.depth(), depth, "in {:?}", document);
    }
}

#[test]
fn small_documents_end_once_and_stay_nested() {
    let plain = ReaderOptions {
        trim_whitespace: false,
        whitespace_to_characters: false,
        cdata_to_characters: false,
        ignore_comments: false,
        coalesce_characters: false,
    };
    let normalizing = ReaderOptions {
        trim_whitespace: true,
        whitespace_to_characters: true,
        cdata_to_characters: true,
        ignore_comments: true,
        coalesce_characters: true,
    };
    for document in documents(4) {
        walk(&document, &plain);
        walk(&document, &normalizing);
    }
}

#[test]
fn the_same_bytes_give_the_same_events() {
    let options = ReaderOptions {
        trim_whitespace: true,
        whitespace_to_characters: true,
        cdata_to_characters: true,
        ignore_comments: true,
        coalesce_characters: true,
    };
    for document in documents(3) {
        let mut first = Deserializer::new(EventSource::open(document.as_bytes(), &options));
        let mut second = Deserializer::new_from_reader(document.as_bytes());
        for _ in 0..(2 * document.len() + 4) {
            let one = first.next_event().map(|event| format!("{:?}", event)).map_err(|error| format!("{:?}", error));
            let other = second.next_event().map(|event| format!("{:?}", event)).map_err(|error| format!("{:?}", error));
            assert_eq!(one, other, "in {:?}", document);
        }
    }
}
