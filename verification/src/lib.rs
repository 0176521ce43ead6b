//! Support for `.http` request files in the Zed editor, around the httpyac
//! CLI: finding the requests of a document, keeping them in step with the
//! document, formatting and caching responses, the language server's hints,
//! actions and commands, and the `httpyac-rs` command line.

pub mod backend;
pub mod cache;
pub mod cli;
pub mod dash;
pub mod documents;
pub mod error;
pub mod exchange;
pub mod extension;
pub mod extern_calls;
pub mod request_index;
pub mod response_format;
pub mod send;
pub mod text;
