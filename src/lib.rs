//! A small HTTP/1.x server core: request parsing, routing, response
//! framing with optional gzip compression, and the keep-alive decision.
//! Socket and file I/O are performed by the caller, which hands the
//! library plain byte values.
pub mod bytes;
pub mod text;
pub mod structs;
pub mod utils;
pub mod request;
pub mod response;
pub mod files;
pub mod server;
pub mod laws;
