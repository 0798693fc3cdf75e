//! The server side of a connection: the state of its streams and how its
//! events drive them.

pub mod controller;
pub mod laws;
pub mod router;
