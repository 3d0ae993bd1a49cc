//! The physics schemas: authoring them, and reading them back.

pub mod author;
pub mod author_laws;
pub mod laws;
pub mod names;
pub mod read;
pub mod read_laws;
pub mod types;
