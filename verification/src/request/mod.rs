//! Requests: their fields, and reading them from the header fields that open
//! a stream.

pub mod body;
pub mod builder;
pub mod path;

use crate::http::encoding::{parse_accept_encoding, Encoding, EncodingKind};
use crate::http::headers::{
    empty_request_headers, header_texts, headers_view, insert_header, Header, HeaderFault,
    ParseHeaderError,
    RequestHeaders, RequestHeadersView, ACCEPT_ENCODING, AUTHORITY, METHOD, PATH, SCHEME,
};
use crate::http::method::{method_for_name, Method};
use crate::request::builder::{text_of, RequestBuilder, RequestBuilderError};
use vstd::prelude::*;
use vstd::string::*;
use vstd::utf8::{decode_utf8, encode_utf8, valid_utf8};

verus! {

/// A request: its pseudo-header fields, its other headers and its body.
#[derive(Debug)]
pub struct Request<T> {
    /// The method of the request (e.g. `GET`, `POST`).
    pub method: Method,
    /// The path of the request (e.g. `/index.html`).
    pub path: String,
    /// The authority of the request, the server host (e.g. `www.example.com`).
    pub authority: String,
    /// The scheme of the request, almost always `https`.
    pub scheme: String,
    /// The other standard and extra headers of the request.
    pub headers: RequestHeaders,
    /// The body of the request.
    pub body: T,
    /// Whether a body follows the headers.
    pub body_assosiated: bool,
}

/// Where a request parameter comes from.
#[derive(Debug, Clone, Copy, PartialEq, Eq, Structural)]
pub enum RequestParamKind {
    Query,
    Path,
    Header,
    Body,
}

impl RequestParamKind {
    /// The name, in lower case.
    pub open spec fn spec_name(self) -> Seq<char> {
        match self {
            RequestParamKind::Query => "query"@,
            RequestParamKind::Path => "path"@,
            RequestParamKind::Header => "header"@,
            RequestParamKind::Body => "body"@,
        }
    }

    /// The name, in lower case (`query`, `path`, `header`, `body`).
    pub fn to_string(&self) -> (s: String)
        ensures
            s@ == self.spec_name(),
    {
        match self {
            RequestParamKind::Query => "query".to_owned(),
            RequestParamKind::Path => "path".to_owned(),
            RequestParamKind::Header => "header".to_owned(),
            RequestParamKind::Body => "body".to_owned(),
        }
    }
}

/// What the header fields of a stream have set so far.
pub struct RequestFields {
    pub method: Method,
    pub path: Option<Seq<char>>,
    pub authority: Option<Seq<char>>,
    pub scheme: Option<Seq<char>>,
    pub headers: RequestHeadersView,
}

/// Nothing set yet: `GET`, no path, authority or scheme, no headers.
pub open spec fn no_fields() -> RequestFields {
    RequestFields {
        method: Method::GET,
        path: None,
        authority: None,
        scheme: None,
        headers: empty_request_headers(),
    }
}

/// The fields of a builder.
pub open spec fn builder_fields<T>(b: RequestBuilder<T>) -> RequestFields {
    RequestFields {
        method: b.method,
        path: text_of(b.path),
        authority: text_of(b.authority),
        scheme: text_of(b.scheme),
        headers: b.headers@,
    }
}

/// Why a header field was refused, as texts.
pub enum FieldFault {
    /// The name (these bytes) is not UTF-8.
    BadKey(Seq<u8>),
    /// The value of the named header is not UTF-8.
    BadValue(Seq<char>),
    /// The named header has this weight text, which is not a float literal.
    ExpectedFloat(Seq<char>, Seq<char>),
    /// The named header is not an unsigned integer that fits.
    ExpectedInt(Seq<char>),
    /// The named header is not a media type.
    NotMedia(Seq<char>),
    /// The method is none of the methods.
    UnknownMethod,
}

/// The header error shows this fault.
pub open spec fn shows_fault(e: ParseHeaderError, fault: FieldFault) -> bool {
    match fault {
        FieldFault::BadKey(k) => e matches ParseHeaderError::BadKey(b, _) && b@ == k,
        FieldFault::BadValue(n) => e matches ParseHeaderError::BadValue(m, _) && m@ == n,
        FieldFault::ExpectedFloat(n, t) => e matches ParseHeaderError::ExpectedFloat(m, u) && m@ == n
            && u@ == t,
        FieldFault::ExpectedInt(n) => e matches ParseHeaderError::ExpectedInt(m, _) && m@ == n,
        FieldFault::NotMedia(n) => e matches ParseHeaderError::Unexpected(m, _) && m@ == n,
        FieldFault::UnknownMethod => e matches ParseHeaderError::Unexpected(m, t) && m@ == "Method"@
            && t@ == "Matching variant not found"@,
    }
}

/// The fault of a header field whose name or value is not UTF-8.
pub open spec fn utf8_fault(h: (Seq<u8>, Seq<u8>)) -> FieldFault {
    if !valid_utf8(h.0) {
        FieldFault::BadKey(h.0)
    } else {
        FieldFault::BadValue(decode_utf8(h.0))
    }
}

/// The fields after reading one header field (its name and value bytes), or
/// why it is refused. The pseudo-headers `:authority`, `:path` and `:scheme`
/// set their field to the value; `:method` sets the method it names;
/// `accept-encoding` sets the acceptable encodings; any other field is read
/// as by [`RequestHeaders::try_insert`].
pub open spec fn read_field(f: RequestFields, h: (Seq<u8>, Seq<u8>)) -> Result<RequestFields, FieldFault> {
    if h.0 == encode_utf8(AUTHORITY@) {
        match header_texts(h) {
            Some((_, v)) => Ok(RequestFields { authority: Some(v), ..f }),
            None => Err(utf8_fault(h)),
        }
    } else if h.0 == encode_utf8(METHOD@) {
        if valid_utf8(h.1) {
            match method_for_name(decode_utf8(h.1)) {
                Some(m) => Ok(RequestFields { method: m, ..f }),
                None => Err(FieldFault::UnknownMethod),
            }
        } else {
            Err(FieldFault::BadValue("Method"@))
        }
    } else if h.0 == encode_utf8(PATH@) {
        match header_texts(h) {
            Some((_, v)) => Ok(RequestFields { path: Some(v), ..f }),
            None => Err(utf8_fault(h)),
        }
    } else if h.0 == encode_utf8(SCHEME@) {
        match header_texts(h) {
            Some((_, v)) => Ok(RequestFields { scheme: Some(v), ..f }),
            None => Err(utf8_fault(h)),
        }
    } else if h.0 == encode_utf8(ACCEPT_ENCODING@) {
        if valid_utf8(h.1) {
            match parse_accept_encoding(decode_utf8(h.1)) {
                Ok(es) => Ok(
                    RequestFields {
                        headers: RequestHeadersView { accept_encoding: es, ..f.headers },
                        ..f
                    },
                ),
                Err(w) => Err(FieldFault::ExpectedFloat(ACCEPT_ENCODING@, w)),
            }
        } else {
            Err(FieldFault::BadValue(ACCEPT_ENCODING@))
        }
    } else {
        match header_texts(h) {
            Some((n, v)) => match insert_header(f.headers, n, v) {
                Ok(hs) => Ok(RequestFields { headers: hs, ..f }),
                Err(HeaderFault::Float(w)) => Err(FieldFault::ExpectedFloat(n, w)),
                Err(HeaderFault::Int) => Err(FieldFault::ExpectedInt(n)),
                Err(HeaderFault::Media) => Err(FieldFault::NotMedia(n)),
            },
            None => Err(utf8_fault(h)),
        }
    }
}

/// The fields after reading the header fields in order, or why the first
/// refused one is refused.
pub open spec fn read_fields(f: RequestFields, hs: Seq<(Seq<u8>, Seq<u8>)>) -> Result<
    RequestFields,
    FieldFault,
>
    decreases hs.len(),
{
    if hs.len() == 0 {
        Ok(f)
    } else {
        match read_field(f, hs[0]) {
            Ok(g) => read_fields(g, hs.drop_first()),
            Err(e) => Err(e),
        }
    }
}

/// `e` is the error for header fields that do not make a request: the fault
/// of the first refused field; else the first of path, authority and scheme
/// that is missing.
pub open spec fn refused_with(hs: Seq<(Seq<u8>, Seq<u8>)>, e: RequestBuilderError) -> bool {
    match read_fields(no_fields(), hs) {
        Err(fault) => e matches RequestBuilderError::Header(x) && shows_fault(x, fault),
        Ok(f) => if f.path is None {
            e matches RequestBuilderError::Missing(m) && m@ == "Path is required"@
        } else if f.authority is None {
            e matches RequestBuilderError::Missing(m) && m@ == "Authority is required"@
        } else if f.scheme is None {
            e matches RequestBuilderError::Missing(m) && m@ == "Scheme is required"@
        } else {
            false
        },
    }
}

/// Whether two byte strings are equal.
fn same_bytes(a: &[u8], b: &[u8]) -> (r: bool)
    ensures
        r == (a@ == b@),
{
    if a.len() != b.len() {
        return false;
    }
    let mut i: usize = 0;
    while i < a.len()
        invariant
            a@.len() == b@.len(),
            i <= a@.len(),
            forall|j: int| 0 <= j < i ==> a@[j] == b@[j],
        decreases a@.len() - i,
    {
        if a[i] != b[i] {
            return false;
        }
        i = i + 1;
    }
    assert(a@ =~= b@);
    true
}

/// Reads one header field into a builder (see [`read_field`]).
fn read_into<T>(b: &mut RequestBuilder<T>, h: &Header) -> (r: Result<(), ParseHeaderError>)
    ensures
        match read_field(builder_fields(*old(b)), h@) {
            Ok(f) => r is Ok && builder_fields(*final(b)) == f,
            Err(fault) => r matches Err(e) && shows_fault(e, fault),
        },
        final(b).body == old(b).body,
        final(b).body_assosiated == old(b).body_assosiated,
{
    let name = h.name();
    if same_bytes(name, AUTHORITY.as_bytes()) {
        let (_, v) = RequestHeaders::try_to_owned(h)?;
        b.authority(v.as_str());
    } else if same_bytes(name, METHOD.as_bytes()) {
        let m = Method::try_from_header(h)?;
        b.method(m);
    } else if same_bytes(name, PATH.as_bytes()) {
        let (_, v) = RequestHeaders::try_to_owned(h)?;
        b.path(v.as_str());
    } else if same_bytes(name, SCHEME.as_bytes()) {
        let (_, v) = RequestHeaders::try_to_owned(h)?;
        b.scheme(v.as_str());
    } else if same_bytes(name, ACCEPT_ENCODING.as_bytes()) {
        let es = Encoding::try_from_header(h)?;
        b.headers.accept_encoding = es;
        proof {
            let t = parse_accept_encoding(decode_utf8(h@.1))->Ok_0;
            assert(b.headers@.accept_encoding =~= t);
        }
    } else {
        b.headers.try_insert(h)?;
    }
    Ok(())
}

impl<T> Request<T> {
    /// A builder with nothing set.
    pub fn builder() -> (b: RequestBuilder<T>)
        ensures
            builder_fields(b) == no_fields(),
            b.body is None,
            !b.body_assosiated,
    {
        RequestBuilder::new()
    }

    /// The path, as text.
    pub fn path_str(&self) -> (s: &str)
        ensures
            s@ == self.path@,
    {
        self.path.as_str()
    }

    /// The request that the header fields opening a stream describe, with the
    /// stream's body; a body is associated unless the stream's reading side
    /// already finished. A refused header field is a `Header` error; a missing
    /// path, authority or scheme is `Missing`, as [`RequestBuilder::build`] says.
    pub fn try_from_incoming(headers: &Vec<Header>, read_fin: bool, body: T) -> (r: Result<
        Request<T>,
        RequestBuilderError,
    >)
        ensures
            match read_fields(no_fields(), headers_view(headers@)) {
                Err(fault) => r matches Err(RequestBuilderError::Header(e)) && shows_fault(e, fault),
                Ok(f) => if f.path is None {
                    r matches Err(RequestBuilderError::Missing(m)) && m@ == "Path is required"@
                } else if f.authority is None {
                    r matches Err(RequestBuilderError::Missing(m)) && m@ == "Authority is required"@
                } else if f.scheme is None {
                    r matches Err(RequestBuilderError::Missing(m)) && m@ == "Scheme is required"@
                } else {
                    r matches Ok(q) && q.method == f.method && Some(q.path@) == f.path && Some(
                        q.authority@,
                    ) == f.authority && Some(q.scheme@) == f.scheme && q.headers@ == f.headers
                        && q.body == body && q.body_assosiated == !read_fin
                },
            },
    {
        let mut b: RequestBuilder<T> = Request::builder();
        b.body(body).body_assosiated(!read_fin);
        let ghost hv = headers_view(headers@);
        let ghost all = read_fields(no_fields(), hv);
        let n = headers.len();
        let mut i: usize = 0;
        assert(hv.subrange(0, n as int) =~= hv);
        while i < n
            invariant
                n == headers@.len(),
                hv == headers_view(headers@),
                i <= n,
                all == read_fields(no_fields(), hv),
                all == read_fields(builder_fields(b), hv.subrange(i as int, n as int)),
                b.body == Some(body),
                b.body_assosiated == !read_fin,
            decreases n - i,
        {
            let ghost before = builder_fields(b);
            let ghost rest = hv.subrange(i as int, n as int);
            assert(rest[0] == headers@[i as int]@);
            assert(rest.drop_first() =~= hv.subrange(i + 1, n as int));
            match read_into(&mut b, &headers[i]) {
                Ok(()) => {},
                Err(e) => return Err(RequestBuilderError::Header(e)),
            }
            i = i + 1;
        }
        assert(hv.subrange(n as int, n as int) =~= Seq::<(Seq<u8>, Seq<u8>)>::empty());
        b.build()
    }
}

} // verus!
