//! The errors a router reports for a request it was handed.

use crate::request::builder::RequestBuilderError;
use crate::text::push_str;
use crate::types::error::RequestError;
use vstd::prelude::*;
use vstd::std_specs::convert::FromSpecImpl;
use vstd::string::*;

verus! {

/// Why a router could not answer a request.
#[derive(Debug)]
pub enum ServerError {
    /// No route of the router matches the request.
    NoRoute,
    /// The request could not be built from its header fields.
    Request(RequestBuilderError),
    /// The request body could not be read.
    RequestDeserialize(RequestError),
    /// Anything else, described by the text.
    Generic(String),
}

impl ServerError {
    /// The error as displayed.
    pub fn to_string(&self) -> (s: String)
        ensures
            self is NoRoute ==> s@ == "Router couldn't find any matching handlers"@,
            self matches ServerError::Generic(t) ==> s@ == t@,
            self matches ServerError::Request(RequestBuilderError::Missing(m)) ==> s@
                == "Missing required field: "@ + m@,
    {
        match self {
            ServerError::NoRoute => "Router couldn't find any matching handlers".to_owned(),
            ServerError::Request(e) => e.to_string(),
            ServerError::RequestDeserialize(e) => {
                let mut s = String::new();
                push_str(&mut s, "Failed to deserialize request: ");
                let t = e.to_string();
                push_str(&mut s, t.as_str());
                s
            },
            ServerError::Generic(t) => t.clone(),
        }
    }
}

impl From<RequestBuilderError> for ServerError {
    /// A request that could not be built.
    fn from(value: RequestBuilderError) -> ServerError {
        ServerError::Request(value)
    }
}

impl FromSpecImpl<RequestBuilderError> for ServerError {
    open spec fn obeys_from_spec() -> bool {
        true
    }

    open spec fn from_spec(value: RequestBuilderError) -> ServerError {
        ServerError::Request(value)
    }
}

impl From<RequestError> for ServerError {
    /// A request body that could not be read.
    fn from(value: RequestError) -> ServerError {
        ServerError::RequestDeserialize(value)
    }
}

impl FromSpecImpl<RequestError> for ServerError {
    open spec fn obeys_from_spec() -> bool {
        true
    }

    open spec fn from_spec(value: RequestError) -> ServerError {
        ServerError::RequestDeserialize(value)
    }
}

impl From<&'static str> for ServerError {
    /// A generic error with this text.
    fn from(value: &'static str) -> (e: ServerError)
        ensures
            e matches ServerError::Generic(t) && t@ == value@,
    {
        ServerError::Generic(value.to_owned())
    }
}

impl FromSpecImpl<&'static str> for ServerError {
    /// The text is copied into a fresh `String`, which `==` does not see through.
    open spec fn obeys_from_spec() -> bool {
        false
    }

    open spec fn from_spec(value: &'static str) -> ServerError {
        arbitrary()
    }
}

} // verus!
