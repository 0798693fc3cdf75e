//! Types shared by requests and responses: the errors of handling a request,
//! and JSON bodies.

pub mod error;
pub mod json;
