//! Runtime core of a declarative XML binding engine: an event cursor over a
//! pull parser, and the per-field binding configuration that a schema-driven
//! traversal consults while it walks the events.

pub mod common;
pub mod de;
pub mod errors;
pub mod text;

pub use de::from::YaDeserialize;
