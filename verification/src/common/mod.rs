//! What is shared by the two directions of the binding: the per-field
//! configuration and the annotations it is read from.

pub mod attribute;
pub mod namespaces;
pub mod text;
pub mod token;

pub use attribute::{Binding, YaSerdeAttribute};
pub use namespaces::NamespaceTable;
pub use token::{Annotation, Delimiter, Token};
