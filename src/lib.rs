//! Zero-copy, schema-driven binary messages: an arena-backed writer, an
//! offset-resolving reader, and the typed accessors that generated code uses.

pub mod arena;
pub mod codec;
pub mod copy;
pub mod error;
pub mod laws;
pub mod list_in;
pub mod list_out;
pub mod message;
pub mod pod;
pub mod reader;
pub mod simple;
