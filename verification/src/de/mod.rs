//! Deserialization: the event vocabulary, the event source and the cursor.

pub mod deserializer;
pub mod event;
pub mod from;
pub mod model;
pub mod source;
pub mod stream;

pub use deserializer::Deserializer;
pub use event::{Event, Name};
pub use from::{from_reader, from_str, YaDeserialize};
pub use source::{EventSource, ReaderOptions};
