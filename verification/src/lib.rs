//! A client library for a stateful conversational API.
//!
//! It keeps the ordered exchange history between a user and an assistant,
//! optionally augmented with callable-function declarations, and encodes and
//! decodes that history to the wire protocol's JSON format.  The encoders and
//! the decoder are written here and verified: every string field is escaped,
//! mandatory placeholder fields are emitted, and the round-trip laws between
//! encoding and decoding are proved.

pub mod chat_context;
pub mod chat_gpt;
pub mod chat_response;
pub mod decode;
pub mod error;
pub mod escape_json;
pub mod function_specification;
pub mod json;
pub mod laws;
pub mod message;
pub mod text;
