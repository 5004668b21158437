//! Core of a small static-file HTTP/1.x server: a multi-value map for
//! headers and query strings, a request parser, a response model, a MIME
//! resolver, a path sanitizer, and the decision logic of the web handler
//! and of the acceptor/worker pool.

pub mod content_type;
pub mod headers;
pub mod method;
pub mod query_string;
pub mod request;
pub mod response;
pub mod server;
pub mod status_code;
pub mod text;
pub mod web_handler;
pub mod value;
