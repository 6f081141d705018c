//! Persistence support for a structured note-taking domain: entity columns,
//! typed history items and parent/child relationships, together with the
//! marshalling layer that carries them across a foreign-call boundary and the
//! search-parameter semantics that the storage layer consumes.

pub mod api;
pub mod errors;
pub mod extract;
pub mod foreign;
pub mod order;
pub mod search;
pub mod sql_types;
pub mod text;
pub mod timestamp;
pub mod types;
