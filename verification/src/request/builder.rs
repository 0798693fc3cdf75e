//! Building a request field by field, and the errors of doing so.

use crate::http::headers::{empty_request_headers, ParseHeaderError, RequestHeaders};
use crate::http::method::Method;
use crate::request::Request;
use crate::text::push_str;
use vstd::prelude::*;
use vstd::std_specs::convert::FromSpecImpl;
use vstd::string::*;

verus! {

/// Why a request could not be built.
#[derive(Debug)]
pub enum RequestBuilderError {
    /// A required field was not given; the text says which
    /// (e.g. `Path is required`).
    Missing(&'static str),
    /// A header field could not be read.
    Header(ParseHeaderError),
}

impl RequestBuilderError {
    /// The error as displayed: `Missing required field: <what>`, or the
    /// header error's own text.
    pub fn to_string(&self) -> (s: String)
        ensures
            self matches RequestBuilderError::Missing(m) ==> s@ == "Missing required field: "@ + m@,
            self matches RequestBuilderError::Header(e) ==> (e matches ParseHeaderError::Unexpected(
                a,
                b,
            ) ==> s@ == "Unexpected "@ + a@ + ": "@ + b@),
    {
        match self {
            RequestBuilderError::Missing(m) => {
                let mut s = String::new();
                push_str(&mut s, "Missing required field: ");
                push_str(&mut s, m);
                s
            },
            RequestBuilderError::Header(e) => e.to_string(),
        }
    }
}

impl From<ParseHeaderError> for RequestBuilderError {
    /// Wraps a header error.
    fn from(e: ParseHeaderError) -> RequestBuilderError {
        RequestBuilderError::Header(e)
    }
}

impl FromSpecImpl<ParseHeaderError> for RequestBuilderError {
    open spec fn obeys_from_spec() -> bool {
        true
    }

    open spec fn from_spec(e: ParseHeaderError) -> RequestBuilderError {
        RequestBuilderError::Header(e)
    }
}

impl From<&'static str> for RequestBuilderError {
    /// A missing field, described by the text.
    fn from(s: &'static str) -> RequestBuilderError {
        RequestBuilderError::Missing(s)
    }
}

impl FromSpecImpl<&'static str> for RequestBuilderError {
    open spec fn obeys_from_spec() -> bool {
        true
    }

    open spec fn from_spec(s: &'static str) -> RequestBuilderError {
        RequestBuilderError::Missing(s)
    }
}

/// The fields of a request, each optional until the request is built.
#[derive(Debug)]
pub struct RequestBuilder<T> {
    /// The method of the request.
    pub method: Method,
    /// The path of the request (e.g. `/index.html`).
    pub path: Option<String>,
    /// The authority of the request, the server host (e.g. `www.example.com`).
    pub authority: Option<String>,
    /// The scheme of the request, almost always `https`.
    pub scheme: Option<String>,
    /// The other headers of the request.
    pub headers: RequestHeaders,
    /// The body of the request.
    pub body: Option<T>,
    /// Whether a body follows the headers.
    pub body_assosiated: bool,
}

/// The text of an optional string.
pub open spec fn text_of(o: Option<String>) -> Option<Seq<char>> {
    match o {
        Some(s) => Some(s@),
        None => None,
    }
}

impl<T> RequestBuilder<T> {
    /// `GET`, no path, authority, scheme or body, empty headers, no body
    /// associated.
    pub fn new() -> (b: RequestBuilder<T>)
        ensures
            b.method == Method::GET,
            b.path is None,
            b.authority is None,
            b.scheme is None,
            b.headers@ == empty_request_headers(),
            b.body is None,
            !b.body_assosiated,
    {
        RequestBuilder {
            method: Method::GET,
            path: None,
            authority: None,
            scheme: None,
            headers: RequestHeaders::default(),
            body: None,
            body_assosiated: false,
        }
    }

    /// Sets the method.
    pub fn method(&mut self, method: Method) -> (r: &mut RequestBuilder<T>)
        ensures
            *r == (RequestBuilder { method, ..*old(self) }),
            *final(self) == *final(r),
    {
        self.method = method;
        self
    }

    /// Sets the path.
    pub fn path(&mut self, path: &str) -> (r: &mut RequestBuilder<T>)
        ensures
            text_of(r.path) == Some(path@),
            r.method == old(self).method,
            r.authority == old(self).authority,
            r.scheme == old(self).scheme,
            r.headers == old(self).headers,
            r.body == old(self).body,
            r.body_assosiated == old(self).body_assosiated,
            *final(self) == *final(r),
    {
        self.path = Some(path.to_owned());
        self
    }

    /// Sets the authority.
    pub fn authority(&mut self, authority: &str) -> (r: &mut RequestBuilder<T>)
        ensures
            text_of(r.authority) == Some(authority@),
            r.method == old(self).method,
            r.path == old(self).path,
            r.scheme == old(self).scheme,
            r.headers == old(self).headers,
            r.body == old(self).body,
            r.body_assosiated == old(self).body_assosiated,
            *final(self) == *final(r),
    {
        self.authority = Some(authority.to_owned());
        self
    }

    /// Sets the scheme.
    pub fn scheme(&mut self, scheme: &str) -> (r: &mut RequestBuilder<T>)
        ensures
            text_of(r.scheme) == Some(scheme@),
            r.method == old(self).method,
            r.path == old(self).path,
            r.authority == old(self).authority,
            r.headers == old(self).headers,
            r.body == old(self).body,
            r.body_assosiated == old(self).body_assosiated,
            *final(self) == *final(r),
    {
        self.scheme = Some(scheme.to_owned());
        self
    }

    /// Replaces the headers.
    pub fn headers(&mut self, headers: RequestHeaders) -> (r: &mut RequestBuilder<T>)
        ensures
            *r == (RequestBuilder { headers, ..*old(self) }),
            *final(self) == *final(r),
    {
        self.headers = headers;
        self
    }

    /// Sets the body.
    pub fn body(&mut self, body: T) -> (r: &mut RequestBuilder<T>)
        ensures
            *r == (RequestBuilder { body: Some(body), ..*old(self) }),
            *final(self) == *final(r),
    {
        self.body = Some(body);
        self
    }

    /// Sets whether a body follows the headers.
    pub fn body_assosiated(&mut self, value: bool) -> (r: &mut RequestBuilder<T>)
        ensures
            *r == (RequestBuilder { body_assosiated: value, ..*old(self) }),
            *final(self) == *final(r),
    {
        self.body_assosiated = value;
        self
    }

    /// The request, if path, authority, scheme and body were all given; else
    /// `Missing` for the first of them (in that order) that was not:
    /// `Path is required`, `Authority is required`, `Scheme is required`,
    /// `Body is required`.
    pub fn build(self) -> (r: Result<Request<T>, RequestBuilderError>)
        ensures
            self.path is None ==> (r matches Err(RequestBuilderError::Missing(m)) && m@
                == "Path is required"@),
            self.path is Some && self.authority is None ==> (r matches Err(
                RequestBuilderError::Missing(m),
            ) && m@ == "Authority is required"@),
            self.path is Some && self.authority is Some && self.scheme is None ==> (r matches Err(
                RequestBuilderError::Missing(m),
            ) && m@ == "Scheme is required"@),
            self.path is Some && self.authority is Some && self.scheme is Some && self.body is None
                ==> (r matches Err(RequestBuilderError::Missing(m)) && m@ == "Body is required"@),
            self.path is Some && self.authority is Some && self.scheme is Some && self.body is Some
                ==> (r matches Ok(q) && q == (Request {
                method: self.method,
                path: self.path->0,
                authority: self.authority->0,
                scheme: self.scheme->0,
                headers: self.headers,
                body: self.body->0,
                body_assosiated: self.body_assosiated,
            })),
    {
        let path = match self.path {
            Some(p) => p,
            None => return Err(RequestBuilderError::Missing("Path is required")),
        };
        let authority = match self.authority {
            Some(a) => a,
            None => return Err(RequestBuilderError::Missing("Authority is required")),
        };
        let scheme = match self.scheme {
            Some(s) => s,
            None => return Err(RequestBuilderError::Missing("Scheme is required")),
        };
        let body = match self.body {
            Some(b) => b,
            None => return Err(RequestBuilderError::Missing("Body is required")),
        };
        Ok(Request {
            method: self.method,
            path,
            authority,
            scheme,
            headers: self.headers,
            body,
            body_assosiated: self.body_assosiated,
        })
    }
}

impl<T> Default for RequestBuilder<T> {
    /// Same as [`RequestBuilder::new`].
    fn default() -> (b: RequestBuilder<T>)
        ensures
            b.method == Method::GET,
            b.path is None,
            b.authority is None,
            b.scheme is None,
            b.headers@ == empty_request_headers(),
            b.body is None,
            !b.body_assosiated,
    {
        RequestBuilder::new()
    }
}

} // verus!
