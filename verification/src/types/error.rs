//! The errors of handling a request and sending its response.

use crate::request::builder::RequestBuilderError;
use crate::request::RequestParamKind;
use crate::text::push_str;
use crate::types::json::json_error_text;
use vstd::prelude::*;
use vstd::std_specs::convert::FromSpecImpl;
use vstd::string::*;

verus! {

/// Any error of handling a request.
#[derive(Debug)]
pub enum ProtestError {
    /// No route matches the request.
    NoRoute,
    /// The response could not be produced or sent.
    Response(ResponseError),
    /// The request could not be read.
    Request(RequestError),
    /// Anything else, described by the text.
    Generic(String),
}

/// Why a request could not be read.
#[derive(Debug)]
pub enum RequestError {
    /// Its header fields do not make a request.
    BuildFromHttp(RequestBuilderError),
    /// Its body is not the JSON expected.
    Deserialize(serde_json::Error),
    /// A parameter could not be converted to the type the handler takes.
    Invalid {
        /// The name of the parameter.
        name: String,
        /// Where the parameter comes from.
        kind: RequestParamKind,
        /// The text of the parameter, if there was one.
        raw_value: Option<String>,
        /// The name of the type it should have been converted to.
        conversion_type: Option<String>,
        /// What went wrong.
        message: String,
    },
}

/// Why a response could not be produced or sent.
#[derive(Debug)]
pub enum ResponseError {
    /// The body could not be written as JSON.
    Serialize(serde_json::Error),
    /// The stream refused the response; the text is the sender's error.
    Send(String),
}

/// The debug rendering of an optional text (`None`, or `Some("...")` with the
/// text quoted and escaped).
pub uninterp spec fn optional_debug_text(o: Option<Seq<char>>) -> Seq<char>;

/// `<Option<String> as Debug>::fmt`, as text: `None` for no text; a text is
/// quoted and escaped as `str`'s `Debug` does, inside `Some(..)`.
#[verifier::external_body]
fn debug_optional(o: &Option<String>) -> (s: String)
    ensures
        s@ == optional_debug_text(match o {
            Some(t) => Some(t@),
            None => None,
        }),
        o is None ==> s@ == "None"@,
{
    format!("{o:?}")
}

/// The text of an optional string.
pub open spec fn optional_text(o: Option<String>) -> Option<Seq<char>> {
    match o {
        Some(t) => Some(t@),
        None => None,
    }
}

impl RequestError {
    /// The error as displayed.
    pub fn to_string(&self) -> (s: String)
        ensures
            self matches RequestError::Invalid { name, kind, raw_value, conversion_type, message }
                ==> s@ == "Failed to convert parameter '"@ + kind.spec_name() + "' named '"@ + name@
                + "' to "@ + optional_debug_text(optional_text(*conversion_type)) + " for value "@
                + optional_debug_text(optional_text(*raw_value)) + ": "@ + message@,
            self matches RequestError::BuildFromHttp(RequestBuilderError::Missing(m)) ==> s@
                == "Missing required field: "@ + m@,
    {
        match self {
            RequestError::BuildFromHttp(e) => e.to_string(),
            RequestError::Deserialize(e) => {
                let mut s = String::new();
                push_str(&mut s, "Failed to deserialize while processing the request: ");
                let t = json_error_text(e);
                push_str(&mut s, t.as_str());
                s
            },
            RequestError::Invalid { name, kind, raw_value, conversion_type, message } => {
                let mut s = String::new();
                push_str(&mut s, "Failed to convert parameter '");
                let k = kind.to_string();
                push_str(&mut s, k.as_str());
                push_str(&mut s, "' named '");
                push_str(&mut s, name.as_str());
                push_str(&mut s, "' to ");
                let c = debug_optional(conversion_type);
                push_str(&mut s, c.as_str());
                push_str(&mut s, " for value ");
                let r = debug_optional(raw_value);
                push_str(&mut s, r.as_str());
                push_str(&mut s, ": ");
                push_str(&mut s, message.as_str());
                s
            },
        }
    }
}

impl ResponseError {
    /// The error as displayed.
    pub fn to_string(&self) -> (s: String)
        ensures
            self matches ResponseError::Send(t) ==> s@ == "Failed to send response object: "@ + t@,
    {
        let mut s = String::new();
        match self {
            ResponseError::Serialize(e) => {
                push_str(&mut s, "Failed to deserialize while processing the request: ");
                let t = json_error_text(e);
                push_str(&mut s, t.as_str());
            },
            ResponseError::Send(t) => {
                push_str(&mut s, "Failed to send response object: ");
                push_str(&mut s, t.as_str());
            },
        }
        s
    }
}

impl ProtestError {
    /// The error as displayed.
    pub fn to_string(&self) -> (s: String)
        ensures
            self is NoRoute ==> s@ == "Router couldn't find any matching handlers"@,
            self matches ProtestError::Generic(t) ==> s@ == "Unhandled/unexpected error: "@ + t@,
            self matches ProtestError::Response(ResponseError::Send(t)) ==> s@
                == "Failed to send response object: "@ + t@,
            self matches ProtestError::Request(RequestError::BuildFromHttp(
                RequestBuilderError::Missing(m),
            )) ==> s@ == "Missing required field: "@ + m@,
    {
        match self {
            ProtestError::NoRoute => "Router couldn't find any matching handlers".to_owned(),
            ProtestError::Response(e) => e.to_string(),
            ProtestError::Request(e) => e.to_string(),
            ProtestError::Generic(t) => {
                let mut s = String::new();
                push_str(&mut s, "Unhandled/unexpected error: ");
                push_str(&mut s, t.as_str());
                s
            },
        }
    }
}

impl From<&'static str> for ProtestError {
    /// A generic error with this text.
    fn from(value: &'static str) -> (e: ProtestError)
        ensures
            e matches ProtestError::Generic(t) && t@ == value@,
    {
        ProtestError::Generic(value.to_owned())
    }
}

impl FromSpecImpl<&'static str> for ProtestError {
    /// The text is copied into a fresh `String`, which `==` does not see through.
    open spec fn obeys_from_spec() -> bool {
        false
    }

    open spec fn from_spec(value: &'static str) -> ProtestError {
        arbitrary()
    }
}

impl From<RequestBuilderError> for ProtestError {
    /// A request that could not be built.
    fn from(value: RequestBuilderError) -> ProtestError {
        ProtestError::Request(RequestError::BuildFromHttp(value))
    }
}

impl FromSpecImpl<RequestBuilderError> for ProtestError {
    open spec fn obeys_from_spec() -> bool {
        true
    }

    open spec fn from_spec(value: RequestBuilderError) -> ProtestError {
        ProtestError::Request(RequestError::BuildFromHttp(value))
    }
}

impl From<RequestError> for ProtestError {
    /// A request that could not be read.
    fn from(value: RequestError) -> ProtestError {
        ProtestError::Request(value)
    }
}

impl FromSpecImpl<RequestError> for ProtestError {
    open spec fn obeys_from_spec() -> bool {
        true
    }

    open spec fn from_spec(value: RequestError) -> ProtestError {
        ProtestError::Request(value)
    }
}

impl From<ResponseError> for ProtestError {
    /// A response that could not be sent.
    fn from(value: ResponseError) -> ProtestError {
        ProtestError::Response(value)
    }
}

impl FromSpecImpl<ResponseError> for ProtestError {
    open spec fn obeys_from_spec() -> bool {
        true
    }

    open spec fn from_spec(value: ResponseError) -> ProtestError {
        ProtestError::Response(value)
    }
}

impl From<RequestBuilderError> for RequestError {
    /// A request that could not be built.
    fn from(value: RequestBuilderError) -> RequestError {
        RequestError::BuildFromHttp(value)
    }
}

impl FromSpecImpl<RequestBuilderError> for RequestError {
    open spec fn obeys_from_spec() -> bool {
        true
    }

    open spec fn from_spec(value: RequestBuilderError) -> RequestError {
        RequestError::BuildFromHttp(value)
    }
}

impl From<serde_json::Error> for RequestError {
    /// A body that is not the JSON expected.
    fn from(value: serde_json::Error) -> RequestError {
        RequestError::Deserialize(value)
    }
}

impl FromSpecImpl<serde_json::Error> for RequestError {
    open spec fn obeys_from_spec() -> bool {
        true
    }

    open spec fn from_spec(value: serde_json::Error) -> RequestError {
        RequestError::Deserialize(value)
    }
}

impl From<serde_json::Error> for ResponseError {
    /// A body that could not be written as JSON.
    fn from(value: serde_json::Error) -> ResponseError {
        ResponseError::Serialize(value)
    }
}

impl FromSpecImpl<serde_json::Error> for ResponseError {
    open spec fn obeys_from_spec() -> bool {
        true
    }

    open spec fn from_spec(value: serde_json::Error) -> ResponseError {
        ResponseError::Serialize(value)
    }
}

} // verus!
