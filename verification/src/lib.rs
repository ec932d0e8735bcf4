//! A small HTTP/1.1 core: request parsing, response framing and the
//! per-connection dispatch to a pluggable handler.

pub mod http;
pub mod website_handler;
