//! Error values of the binding engine.

pub mod de;
pub mod string;
