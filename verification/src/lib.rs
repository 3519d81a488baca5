//! Request handling and payload generation for an HTTP speed-test server.
//!
//! The server answers a download request with a tiny zstd frame that a client
//! decompresses into the requested number of zero bytes. This crate holds the
//! frame encoder and the rules that turn a request into a payload size.

pub mod bytes_le;
pub mod frame;
pub mod text;
pub mod search;
pub mod query;
pub mod path;
pub mod request;
pub mod worker;

pub use frame::{zeros, CONTENT_ENCODING};
