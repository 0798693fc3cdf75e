//! An HTTP/3 framework core: status codes, methods, header parsing and
//! formatting, path matching, request building and the connection state
//! machine that decides when a request is dispatched.

pub mod error;
pub mod http;
pub mod request;
pub mod response;
pub mod server;
pub mod service;
pub mod text;
pub mod types;
