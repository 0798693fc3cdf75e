//! HTTP request methods.

use crate::http::headers::{utf8_str, Header, ParseHeaderError};
use crate::text::{chars_of, range_eq};
use vstd::prelude::*;
use vstd::std_specs::convert::TryFromSpecImpl;
use vstd::string::*;
use vstd::utf8::{decode_utf8, valid_utf8};

verus! {

/// An HTTP request method. Its name is written in upper case.
#[derive(Debug, Clone, Copy, Eq, PartialEq, Structural, Hash)]
pub enum Method {
    /// The GET method requests a representation of the specified resource.
    GET,
    /// The POST method submits an entity to the specified resource.
    POST,
    /// The PUT method replaces all current representations of the target resource with the request content.
    PUT,
    /// The DELETE method deletes the specified resource.
    DELETE,
    /// The PATCH method applies partial modifications to a resource.
    PATCH,
    /// The OPTIONS method describes the communication options for the target resource.
    OPTIONS,
    /// The HEAD method asks for a response identical to a GET request, but without a response body.
    HEAD,
    /// The CONNECT method establishes a tunnel to the server identified by the target resource.
    CONNECT,
    /// The TRACE method performs a message loop-back test along the path to the target resource.
    TRACE,
}

/// The method with this exact (upper-case) name, if any.
pub open spec fn method_for_name(s: Seq<char>) -> Option<Method> {
    if s == "GET"@ {
        Some(Method::GET)
    } else if s == "POST"@ {
        Some(Method::POST)
    } else if s == "PUT"@ {
        Some(Method::PUT)
    } else if s == "DELETE"@ {
        Some(Method::DELETE)
    } else if s == "PATCH"@ {
        Some(Method::PATCH)
    } else if s == "OPTIONS"@ {
        Some(Method::OPTIONS)
    } else if s == "HEAD"@ {
        Some(Method::HEAD)
    } else if s == "CONNECT"@ {
        Some(Method::CONNECT)
    } else if s == "TRACE"@ {
        Some(Method::TRACE)
    } else {
        None
    }
}

/// A text that names no method.
#[derive(Debug, Clone, Copy, PartialEq, Eq, Structural)]
pub struct ParseMethodError;

impl ParseMethodError {
    /// `Matching variant not found`.
    pub fn to_string(&self) -> (s: String)
        ensures
            s@ == "Matching variant not found"@,
    {
        "Matching variant not found".to_owned()
    }
}

impl Method {
    /// The name of the method (`GET`, `POST`, ...).
    pub open spec fn spec_name(self) -> Seq<char> {
        match self {
            Method::GET => "GET"@,
            Method::POST => "POST"@,
            Method::PUT => "PUT"@,
            Method::DELETE => "DELETE"@,
            Method::PATCH => "PATCH"@,
            Method::OPTIONS => "OPTIONS"@,
            Method::HEAD => "HEAD"@,
            Method::CONNECT => "CONNECT"@,
            Method::TRACE => "TRACE"@,
        }
    }

    /// The name of the method (`"GET"`, `"POST"`, ...).
    pub fn as_str(&self) -> (s: &'static str)
        ensures
            s@ == self.spec_name(),
    {
        match self {
            Method::GET => "GET",
            Method::POST => "POST",
            Method::PUT => "PUT",
            Method::DELETE => "DELETE",
            Method::PATCH => "PATCH",
            Method::OPTIONS => "OPTIONS",
            Method::HEAD => "HEAD",
            Method::CONNECT => "CONNECT",
            Method::TRACE => "TRACE",
        }
    }

    /// The name of the method, as the method is displayed.
    pub fn to_string(&self) -> (s: String)
        ensures
            s@ == self.spec_name(),
    {
        self.as_str().to_owned()
    }

    /// The UTF-8 bytes of the name of the method.
    pub fn as_bytes(&self) -> (b: &'static [u8])
        ensures
            b@ == vstd::utf8::encode_utf8(self.spec_name()),
    {
        let s = self.as_str();
        s.as_bytes()
    }

    /// The method with this exact name; names are upper case (`"GET"`), any
    /// other text is an error.
    pub fn parse(s: &str) -> (r: Result<Method, ParseMethodError>)
        ensures
            r == match method_for_name(s@) {
                Some(m) => Ok(m),
                None => Err::<Method, ParseMethodError>(ParseMethodError),
            },
    {
        let v = chars_of(s);
        let n = v.len();
        assert(v@.subrange(0, n as int) =~= s@);
        if range_eq(&v, 0, n, "GET") {
            Ok(Method::GET)
        } else if range_eq(&v, 0, n, "POST") {
            Ok(Method::POST)
        } else if range_eq(&v, 0, n, "PUT") {
            Ok(Method::PUT)
        } else if range_eq(&v, 0, n, "DELETE") {
            Ok(Method::DELETE)
        } else if range_eq(&v, 0, n, "PATCH") {
            Ok(Method::PATCH)
        } else if range_eq(&v, 0, n, "OPTIONS") {
            Ok(Method::OPTIONS)
        } else if range_eq(&v, 0, n, "HEAD") {
            Ok(Method::HEAD)
        } else if range_eq(&v, 0, n, "CONNECT") {
            Ok(Method::CONNECT)
        } else if range_eq(&v, 0, n, "TRACE") {
            Ok(Method::TRACE)
        } else {
            Err(ParseMethodError)
        }
    }
}

/// Each method is named by its own identifier in upper case, and that name
/// reads as that method.
pub proof fn lemma_method_names()
    ensures
        Method::GET.spec_name() == "GET"@,
        Method::POST.spec_name() == "POST"@,
        Method::PUT.spec_name() == "PUT"@,
        Method::DELETE.spec_name() == "DELETE"@,
        Method::PATCH.spec_name() == "PATCH"@,
        Method::OPTIONS.spec_name() == "OPTIONS"@,
        Method::HEAD.spec_name() == "HEAD"@,
        Method::CONNECT.spec_name() == "CONNECT"@,
        Method::TRACE.spec_name() == "TRACE"@,
        method_for_name("GET"@) == Some(Method::GET),
        method_for_name("POST"@) == Some(Method::POST),
        method_for_name("PUT"@) == Some(Method::PUT),
        method_for_name("DELETE"@) == Some(Method::DELETE),
        method_for_name("PATCH"@) == Some(Method::PATCH),
        method_for_name("OPTIONS"@) == Some(Method::OPTIONS),
        method_for_name("HEAD"@) == Some(Method::HEAD),
        method_for_name("CONNECT"@) == Some(Method::CONNECT),
        method_for_name("TRACE"@) == Some(Method::TRACE),
{
    lemma_method_name_roundtrip(Method::GET);
    lemma_method_name_roundtrip(Method::POST);
    lemma_method_name_roundtrip(Method::PUT);
    lemma_method_name_roundtrip(Method::DELETE);
    lemma_method_name_roundtrip(Method::PATCH);
    lemma_method_name_roundtrip(Method::OPTIONS);
    lemma_method_name_roundtrip(Method::HEAD);
    lemma_method_name_roundtrip(Method::CONNECT);
    lemma_method_name_roundtrip(Method::TRACE);
}

/// The name of a method reads back as that method.
pub proof fn lemma_method_name_roundtrip(m: Method)
    ensures
        method_for_name(m.spec_name()) == Some(m),
{
    reveal_strlit("GET");
    reveal_strlit("POST");
    reveal_strlit("PUT");
    reveal_strlit("DELETE");
    reveal_strlit("PATCH");
    reveal_strlit("OPTIONS");
    reveal_strlit("HEAD");
    reveal_strlit("CONNECT");
    reveal_strlit("TRACE");
    assert("GET"@[0] != "PUT"@[0]);
    assert("POST"@[0] != "HEAD"@[0]);
    assert("PATCH"@[0] != "TRACE"@[0]);
    assert("OPTIONS"@[0] != "CONNECT"@[0]);
    match m {
        Method::GET => {
            assert(method_for_name("GET"@) == Some(Method::GET));
        },
        Method::POST => {
            assert("POST"@ != "GET"@);
            assert(method_for_name("POST"@) == Some(Method::POST));
        },
        Method::PUT => {
            assert("PUT"@ != "GET"@);
            assert("PUT"@[1] != "POST"@[1]);
            assert("PUT"@ != "POST"@);
            assert(method_for_name("PUT"@) == Some(Method::PUT));
        },
        Method::DELETE => {
            assert("DELETE"@ != "GET"@);
            assert("DELETE"@ != "POST"@);
            assert("DELETE"@ != "PUT"@);
            assert(method_for_name("DELETE"@) == Some(Method::DELETE));
        },
        Method::PATCH => {
            assert("PATCH"@ != "GET"@);
            assert("PATCH"@[1] != "POST"@[1]);
            assert("PATCH"@ != "POST"@);
            assert("PATCH"@ != "PUT"@);
            assert("PATCH"@ != "DELETE"@);
            assert(method_for_name("PATCH"@) == Some(Method::PATCH));
        },
        Method::OPTIONS => {
            assert("OPTIONS"@ != "GET"@);
            assert("OPTIONS"@ != "POST"@);
            assert("OPTIONS"@ != "PUT"@);
            assert("OPTIONS"@ != "DELETE"@);
            assert("OPTIONS"@ != "PATCH"@);
            assert(method_for_name("OPTIONS"@) == Some(Method::OPTIONS));
        },
        Method::HEAD => {
            assert("HEAD"@ != "GET"@);
            assert("HEAD"@ != "POST"@);
            assert("HEAD"@ != "PUT"@);
            assert("HEAD"@ != "DELETE"@);
            assert("HEAD"@ != "PATCH"@);
            assert("HEAD"@ != "OPTIONS"@);
            assert(method_for_name("HEAD"@) == Some(Method::HEAD));
        },
        Method::CONNECT => {
            assert("CONNECT"@ != "GET"@);
            assert("CONNECT"@ != "POST"@);
            assert("CONNECT"@ != "PUT"@);
            assert("CONNECT"@ != "DELETE"@);
            assert("CONNECT"@ != "PATCH"@);
            assert("CONNECT"@ != "OPTIONS"@);
            assert("CONNECT"@ != "HEAD"@);
            assert(method_for_name("CONNECT"@) == Some(Method::CONNECT));
        },
        Method::TRACE => {
            assert("TRACE"@ != "GET"@);
            assert("TRACE"@ != "POST"@);
            assert("TRACE"@ != "PUT"@);
            assert("TRACE"@ != "DELETE"@);
            assert("TRACE"@ != "PATCH"@);
            assert("TRACE"@ != "OPTIONS"@);
            assert("TRACE"@ != "HEAD"@);
            assert("TRACE"@ != "CONNECT"@);
            assert(method_for_name("TRACE"@) == Some(Method::TRACE));
        },
    }
}

impl Method {
    /// The method named by the value of a header field. A value that is not
    /// UTF-8 is `BadValue("Method", ..)`; a text that names no method is
    /// `Unexpected("Method", "Matching variant not found")`.
    pub fn try_from_header(header: &Header) -> (r: Result<Method, ParseHeaderError>)
        ensures
            !valid_utf8(header@.1) ==> (r matches Err(ParseHeaderError::BadValue(n, _)) && n@ == "Method"@),
            valid_utf8(header@.1) ==> match method_for_name(decode_utf8(header@.1)) {
                Some(m) => r matches Ok(x) && x == m,
                None => r matches Err(ParseHeaderError::Unexpected(a, b)) && a@ == "Method"@ && b@
                    == "Matching variant not found"@,
            },
    {
        let text = match utf8_str(header.value()) {
            Ok(t) => t,
            Err(e) => return Err(ParseHeaderError::BadValue("Method".to_owned(), e)),
        };
        match Method::parse(text) {
            Ok(m) => Ok(m),
            Err(e) => Err(ParseHeaderError::Unexpected("Method".to_owned(), e.to_string())),
        }
    }
}

impl<'a> TryFrom<&'a str> for Method {
    type Error = ParseMethodError;

    /// Same as [`Method::parse`].
    fn try_from(s: &'a str) -> Result<Method, ParseMethodError> {
        Method::parse(s)
    }
}

impl<'a> TryFromSpecImpl<&'a str> for Method {
    open spec fn obeys_try_from_spec() -> bool {
        true
    }

    open spec fn try_from_spec(s: &'a str) -> Result<Method, ParseMethodError> {
        match method_for_name(s@) {
            Some(m) => Ok(m),
            None => Err(ParseMethodError),
        }
    }
}

impl core::str::FromStr for Method {
    type Err = ParseMethodError;

    /// Same as [`Method::parse`].
    fn from_str(s: &str) -> (r: Result<Method, ParseMethodError>)
        ensures
            r == match method_for_name(s@) {
                Some(m) => Ok(m),
                None => Err::<Method, ParseMethodError>(ParseMethodError),
            },
    {
        Method::parse(s)
    }
}

} // verus!
