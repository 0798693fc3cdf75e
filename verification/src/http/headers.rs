//! Header fields: the raw name/value pairs of a message, the request and
//! response header sets built from them, and the errors of reading them.

use crate::http::cache_control::{cache_control_text, CacheControl};
use crate::http::encoding::{parse_accept_encoding, parse_accept_encoding_text, Encoding, EncodingKind};
use crate::http::header_map::{entries_insert, HeaderMap};
use crate::text::{
    chars_of, decimal, join, push_char, push_str, find_in, lemma_find, parse_unsigned, push_decimal, range_eq, split, string_from,
    trim, trim_bounds,
};
use vstd::prelude::*;
use vstd::slice::slice_to_vec;
use vstd::string::*;
use vstd::utf8::{decode_utf8, encode_utf8, valid_utf8};

verus! {

// ---------- names ----------

/// The pseudo-header that carries the authority of a request.
pub const AUTHORITY: &'static str = ":authority";
/// The pseudo-header that carries the method of a request.
pub const METHOD: &'static str = ":method";
/// The pseudo-header that carries the path of a request.
pub const PATH: &'static str = ":path";
/// The pseudo-header that carries the scheme of a request.
pub const SCHEME: &'static str = ":scheme";
/// The pseudo-header that carries the status of a response.
pub const STATUS: &'static str = ":status";
pub const ACCEPT_ENCODING: &'static str = "accept-encoding";
pub const AUTHORIZATION: &'static str = "authorization";
pub const CACHE_CONTROL: &'static str = "cache-control";
pub const CONTENT_LENGTH: &'static str = "content-length";
pub const CONTENT_TYPE: &'static str = "content-type";
pub const CONTENT_ENCODING: &'static str = "content-encoding";
pub const ENCODING_TYPE: &'static str = "encoding-type";
pub const ORIGIN: &'static str = "origin";
pub const REFERER: &'static str = "referer";
pub const USER_AGENT: &'static str = "user-agent";

// ---------- raw header fields ----------

/// One header field as it travels: a name and a value, both bytes.
#[derive(Debug, Clone, PartialEq, Eq)]
pub struct Header {
    name: Vec<u8>,
    value: Vec<u8>,
}

impl View for Header {
    type V = (Seq<u8>, Seq<u8>);

    closed spec fn view(&self) -> (Seq<u8>, Seq<u8>) {
        (self.name@, self.value@)
    }
}

impl Header {
    /// A header field with this name and value.
    pub fn new(name: &[u8], value: &[u8]) -> (h: Header)
        ensures
            h@ == (name@, value@),
    {
        Header { name: slice_to_vec(name), value: slice_to_vec(value) }
    }

    /// The name, as bytes.
    pub fn name(&self) -> (n: &[u8])
        ensures
            n@ == self@.0,
    {
        self.name.as_slice()
    }

    /// The value, as bytes.
    pub fn value(&self) -> (v: &[u8])
        ensures
            v@ == self@.1,
    {
        self.value.as_slice()
    }
}

// ---------- UTF-8 ----------

/// `std::str::Utf8Error`, carried through unopened.
#[verifier::external_type_specification]
#[verifier::external_body]
pub struct ExUtf8Error(std::str::Utf8Error);

/// `std::num::ParseIntError`, carried through unopened.
#[verifier::external_type_specification]
#[verifier::external_body]
pub struct ExParseIntError(std::num::ParseIntError);

/// `std::str::from_utf8`: the text whose UTF-8 encoding the bytes are, or an
/// error when they are not valid UTF-8 (as its documentation states).
#[verifier::external_body]
pub(crate) fn utf8_str(bytes: &[u8]) -> (r: Result<&str, std::str::Utf8Error>)
    ensures
        r is Ok <==> valid_utf8(bytes@),
        r matches Ok(s) ==> s@ == decode_utf8(bytes@),
{
    std::str::from_utf8(bytes)
}

/// `<usize as FromStr>::from_str`: an optional `+` and decimal digits whose value
/// fits in a `usize`, as its documentation states; anything else is an error.
#[verifier::external_body]
pub(crate) fn parse_usize(s: &str) -> (r: Result<usize, std::num::ParseIntError>)
    ensures
        r matches Ok(n) ==> crate::text::parse_unsigned(s@, usize::MAX as nat) == Some(n as nat),
        r is Err ==> crate::text::parse_unsigned(s@, usize::MAX as nat) is None,
{
    s.parse::<usize>()
}

/// `Display` of a `std` error value, as text.
#[verifier::external_body]
fn utf8_error_text(e: &std::str::Utf8Error) -> String {
    format!("{e}")
}

/// `Display` of a `std` error value, as text.
#[verifier::external_body]
fn int_error_text(e: &std::num::ParseIntError) -> String {
    format!("{e}")
}

// ---------- errors ----------

/// Why a header field could not be read.
#[derive(Debug)]
pub enum ParseHeaderError {
    /// The weight of an encoding (the named header's) is not a float literal;
    /// holds the header name and the weight text.
    ExpectedFloat(String, String),
    /// The named header's value is not an unsigned integer.
    ExpectedInt(String, std::num::ParseIntError),
    /// The named item has an unexpected value (the second text says what).
    Unexpected(String, String),
    /// The name (these bytes) is not UTF-8.
    BadKey(Vec<u8>, std::str::Utf8Error),
    /// The value of the named header is not UTF-8.
    BadValue(String, std::str::Utf8Error),
}

/// How `Debug` writes a list of bytes: `[1, 2, 3]`.
pub open spec fn byte_list_text(bs: Seq<u8>) -> Seq<char> {
    seq!['['] + join(bs.map_values(|b: u8| decimal(b as nat)), ", "@) + seq![']']
}

/// What `f32::from_str`'s error says of a text that is not a float literal.
pub open spec fn float_error_text(text: Seq<char>) -> Seq<char> {
    if text.len() == 0 {
        "cannot parse float from empty string"@
    } else {
        "invalid float literal"@
    }
}

/// Appends the `Debug` form of a list of bytes.
fn push_byte_list(s: &mut String, bs: &[u8])
    ensures
        final(s)@ == old(s)@ + byte_list_text(bs@),
{
    let ghost parts = bs@.map_values(|b: u8| decimal(b as nat));
    push_char(s, '[');
    let ghost start = s@;
    let mut i: usize = 0;
    while i < bs.len()
        invariant
            i <= bs@.len(),
            parts == bs@.map_values(|b: u8| decimal(b as nat)),
            s@ == start + join(parts.subrange(0, i as int), ", "@),
        decreases bs@.len() - i,
    {
        let ghost before = s@;
        if i > 0 {
            push_str(s, ", ");
        }
        push_decimal(s, bs[i] as u64);
        proof {
            let done = parts.subrange(0, i + 1);
            assert(done.drop_last() =~= parts.subrange(0, i as int));
            assert(done.last() == decimal(bs@[i as int] as nat));
            if i == 0 {
                assert(done.len() == 1);
                assert(s@ =~= start + join(done, ", "@));
            } else {
                assert(s@ =~= start + join(done, ", "@));
            }
        }
        i = i + 1;
    }
    assert(parts.subrange(0, bs@.len() as int) =~= parts);
    push_char(s, ']');
    assert(s@ =~= old(s)@ + byte_list_text(bs@));
}

impl ParseHeaderError {
    /// The error as displayed.
    pub fn to_string(&self) -> (s: String)
        ensures
            self matches ParseHeaderError::Unexpected(a, b) ==> s@ == "Unexpected "@ + a@ + ": "@ + b@,
            self matches ParseHeaderError::ExpectedFloat(a, b) ==> s@ == "Failed to parse header "@
                + a@ + " float: "@ + float_error_text(b@),
            self matches ParseHeaderError::ExpectedInt(a, _) ==> ("Failed to parse header "@ + a@
                + " int: "@).is_prefix_of(s@),
            self matches ParseHeaderError::BadKey(k, _) ==> ("Failed to parse "@ + byte_list_text(k@)
                + " key as UTF-8: "@).is_prefix_of(s@),
            self matches ParseHeaderError::BadValue(a, _) ==> ("Failed to parse "@ + a@
                + " value as UTF-8: "@).is_prefix_of(s@),
    {
        let mut s = String::new();
        match self {
            ParseHeaderError::ExpectedFloat(name, text) => {
                push_str(&mut s, "Failed to parse header ");
                push_str(&mut s, name.as_str());
                push_str(&mut s, " float: ");
                if text.as_str().unicode_len() == 0 {
                    push_str(&mut s, "cannot parse float from empty string");
                } else {
                    push_str(&mut s, "invalid float literal");
                }
            },
            ParseHeaderError::ExpectedInt(name, e) => {
                push_str(&mut s, "Failed to parse header ");
                push_str(&mut s, name.as_str());
                push_str(&mut s, " int: ");
                let ghost head = s@;
                let t = int_error_text(e);
                push_str(&mut s, t.as_str());
                assert(s@.subrange(0, head.len() as int) =~= head);
            },
            ParseHeaderError::Unexpected(a, b) => {
                push_str(&mut s, "Unexpected ");
                push_str(&mut s, a.as_str());
                push_str(&mut s, ": ");
                push_str(&mut s, b.as_str());
            },
            ParseHeaderError::BadKey(k, e) => {
                push_str(&mut s, "Failed to parse ");
                push_byte_list(&mut s, k.as_slice());
                push_str(&mut s, " key as UTF-8: ");
                let ghost head = s@;
                let t = utf8_error_text(e);
                push_str(&mut s, t.as_str());
                assert(s@.subrange(0, head.len() as int) =~= head);
            },
            ParseHeaderError::BadValue(name, e) => {
                push_str(&mut s, "Failed to parse ");
                push_str(&mut s, name.as_str());
                push_str(&mut s, " value as UTF-8: ");
                let ghost head = s@;
                let t = utf8_error_text(e);
                push_str(&mut s, t.as_str());
                assert(s@.subrange(0, head.len() as int) =~= head);
            },
        }
        s
    }
}

/// The name and value of a header field as text, or the error for the first
/// of them that is not UTF-8.
pub open spec fn header_texts(h: (Seq<u8>, Seq<u8>)) -> Option<(Seq<char>, Seq<char>)> {
    if valid_utf8(h.0) && valid_utf8(h.1) {
        Some((decode_utf8(h.0), decode_utf8(h.1)))
    } else {
        None
    }
}

/// The name and value of a header field as text.
pub fn header_to_owned(header: &Header) -> (r: Result<(String, String), ParseHeaderError>)
    ensures
        r matches Ok((n, v)) ==> header_texts(header@) == Some((n@, v@)),
        r is Err ==> header_texts(header@) is None,
        r matches Err(e) ==> (!valid_utf8(header@.0) ==> (e matches ParseHeaderError::BadKey(b, _)
            && b@ == header@.0)),
        r matches Err(e) ==> (valid_utf8(header@.0) ==> (e matches ParseHeaderError::BadValue(n, _)
            && n@ == decode_utf8(header@.0))),
{
    let name = match utf8_str(header.name()) {
        Ok(n) => n.to_owned(),
        Err(e) => return Err(ParseHeaderError::BadKey(header.name.clone(), e)),
    };
    let value = match utf8_str(header.value()) {
        Ok(v) => v.to_owned(),
        Err(e) => return Err(ParseHeaderError::BadValue(name, e)),
    };
    Ok((name, value))
}

// ---------- media types ----------

/// `mime::Mime`, carried through unopened.
#[verifier::external_type_specification]
#[verifier::external_body]
pub struct ExMime(mime::Mime);

/// `mime::FromStrError`, carried through unopened.
#[verifier::external_type_specification]
#[verifier::external_body]
pub struct ExMimeFromStrError(mime::FromStrError);

/// The media type that `Mime::from_str` reads from a text, if it accepts it.
pub uninterp spec fn parsed_mime(s: Seq<char>) -> Option<mime::Mime>;

/// The text that `Mime` displays.
pub uninterp spec fn mime_text(m: mime::Mime) -> Seq<char>;

/// `<mime::Mime as FromStr>::from_str`: the media type of the text, or an
/// error when the crate's parser refuses it. Its result depends on the text
/// alone.
#[verifier::external_body]
pub(crate) fn mime_from_str(s: &str) -> (r: Result<mime::Mime, mime::FromStrError>)
    ensures
        r is Ok <==> parsed_mime(s@) is Some,
        r matches Ok(m) ==> parsed_mime(s@) == Some(m),
{
    s.parse::<mime::Mime>()
}

/// `<mime::Mime as Display>::fmt`, as text (the source text the media type keeps).
#[verifier::external_body]
pub(crate) fn mime_to_text(m: &mime::Mime) -> (s: String)
    ensures
        s@ == mime_text(*m),
{
    m.to_string()
}

/// `<mime::FromStrError as Display>::fmt`, as text. Nothing is stated of it:
/// the error has no model here.
#[verifier::external_body]
fn mime_error_text(e: &mime::FromStrError) -> String {
    e.to_string()
}

/// The media types of comma-separated pieces, each trimmed, or the first
/// trimmed piece that is not a media type.
pub open spec fn parse_media_types(pieces: Seq<Seq<char>>) -> Result<Seq<mime::Mime>, Seq<char>>
    decreases pieces.len(),
{
    if pieces.len() == 0 {
        Ok(Seq::empty())
    } else {
        let t = trim(pieces[0]);
        match parsed_mime(t) {
            Some(m) => match parse_media_types(pieces.drop_first()) {
                Ok(rest) => Ok(seq![m] + rest),
                Err(b) => Err(b),
            },
            None => Err(t),
        }
    }
}

/// The media types of a comma-separated list (e.g. an `Accept` value).
pub open spec fn media_type_list(text: Seq<char>) -> Result<Seq<mime::Mime>, Seq<char>> {
    parse_media_types(split(text, ','))
}

/// The start of the message for a piece of a list that is not a media type.
pub open spec fn bad_media_type_prefix(piece: Seq<char>) -> Seq<char> {
    "Failed to parse MIME type '"@ + piece + "': "@
}

/// The media types of a comma-separated list (see [`media_type_list`]); for
/// a piece that is not a media type, a message that names it and then gives
/// the parser's reason.
pub fn parse_mimes(text: &str) -> (r: Result<Vec<mime::Mime>, String>)
    ensures
        match media_type_list(text@) {
            Ok(ms) => r matches Ok(v) && v@ == ms,
            Err(bad) => r matches Err(msg) && bad_media_type_prefix(bad).is_prefix_of(msg@),
        },
{
    let v = chars_of(text);
    let n = v.len();
    let mut out: Vec<mime::Mime> = Vec::new();
    let mut p: usize = 0;
    assert(v@.subrange(0, n as int) =~= text@);
    loop
        invariant
            p <= n,
            n == v@.len(),
            v@ == text@,
            media_type_list(text@) == match parse_media_types(split(v@.subrange(p as int, n as int), ',')) {
                Ok(rest) => Ok(out@ + rest),
                Err(b) => Err::<Seq<mime::Mime>, Seq<char>>(b),
            },
        decreases n - p,
    {
        let i = find_in(&v, p, n, ',');
        let ghost rest = v@.subrange(p as int, n as int);
        let ghost pieces = split(rest, ',');
        proof {
            lemma_find(rest, ',');
            if i < n {
                assert(rest.subrange(0, (i - p) as int) =~= v@.subrange(p as int, i as int));
                assert(rest.subrange((i - p) + 1, rest.len() as int) =~= v@.subrange(i + 1, n as int));
                assert(pieces[0] == v@.subrange(p as int, i as int));
                assert(pieces.drop_first() =~= split(v@.subrange(i + 1, n as int), ','));
            } else {
                assert(pieces =~= seq![rest]);
                assert(rest =~= v@.subrange(p as int, i as int));
                assert(pieces.drop_first() =~= Seq::<Seq<char>>::empty());
            }
        }
        let (a, b) = trim_bounds(&v, p, i);
        let piece = string_from(&v, a, b);
        match mime_from_str(piece.as_str()) {
            Ok(m) => {
                let ghost before = out@;
                out.push(m);
                proof {
                    match parse_media_types(pieces.drop_first()) {
                        Ok(r) => {
                            assert(out@ + r =~= before + (seq![m] + r));
                        },
                        Err(_) => {},
                    }
                }
            },
            Err(e) => {
                let mut msg = String::new();
                crate::text::push_str(&mut msg, "Failed to parse MIME type '");
                crate::text::push_str(&mut msg, piece.as_str());
                crate::text::push_str(&mut msg, "': ");
                let ghost head = msg@;
                let t = mime_error_text(&e);
                crate::text::push_str(&mut msg, t.as_str());
                assert(msg@.subrange(0, head.len() as int) =~= head);
                assert(head =~= bad_media_type_prefix(piece@));
                return Err(msg);
            },
        }
        if i == n {
            assert(out@ + Seq::<mime::Mime>::empty() =~= out@);
            return Ok(out);
        }
        p = i + 1;
    }
}

// ---------- request headers ----------

/// The standard and extra headers of a request.
#[derive(Debug, Clone)]
pub struct RequestHeaders {
    /// Acceptable media types; empty if not specified.
    pub accept: Vec<mime::Mime>,
    /// Acceptable encodings; empty if not specified.
    pub accept_encoding: Vec<Encoding>,
    /// The credentials of the request, e.g. `Bearer <token>`.
    pub authorization: Option<String>,
    /// The cache directives of the request, e.g. `no-cache`.
    pub cache_control: Option<String>,
    /// The length of the request body in bytes.
    pub content_length: Option<usize>,
    /// The media type of the request body.
    pub content_type: Option<mime::Mime>,
    /// The encoding type of the request body, e.g. `chunked`.
    pub encoding_type: Option<String>,
    /// The origin of the request.
    pub origin: Option<String>,
    /// The page that linked to the requested resource.
    pub referer: Option<String>,
    /// The user agent of the client.
    pub user_agent: Option<String>,
    /// Every other header, by name.
    pub extra: HeaderMap,
}

/// The text of an optional string.
pub open spec fn opt_text(o: Option<String>) -> Option<Seq<char>> {
    match o {
        Some(s) => Some(s@),
        None => None,
    }
}

/// What a set of request headers holds, as texts.
pub struct RequestHeadersView {
    pub accept: Seq<mime::Mime>,
    pub accept_encoding: Seq<(EncodingKind, Option<Seq<char>>)>,
    pub authorization: Option<Seq<char>>,
    pub cache_control: Option<Seq<char>>,
    pub content_length: Option<usize>,
    pub content_type: Option<mime::Mime>,
    pub encoding_type: Option<Seq<char>>,
    pub origin: Option<Seq<char>>,
    pub referer: Option<Seq<char>>,
    pub user_agent: Option<Seq<char>>,
    pub extra: Seq<(Seq<char>, Seq<char>)>,
}

impl View for RequestHeaders {
    type V = RequestHeadersView;

    open spec fn view(&self) -> RequestHeadersView {
        RequestHeadersView {
            accept: self.accept@,
            accept_encoding: self.accept_encoding@.map_values(|e: Encoding| e@),
            authorization: opt_text(self.authorization),
            cache_control: opt_text(self.cache_control),
            content_length: self.content_length,
            content_type: self.content_type,
            encoding_type: opt_text(self.encoding_type),
            origin: opt_text(self.origin),
            referer: opt_text(self.referer),
            user_agent: opt_text(self.user_agent),
            extra: self.extra@,
        }
    }
}

/// No header at all.
pub open spec fn empty_request_headers() -> RequestHeadersView {
    RequestHeadersView {
        accept: Seq::empty(),
        accept_encoding: Seq::empty(),
        authorization: None,
        cache_control: None,
        content_length: None,
        content_type: None,
        encoding_type: None,
        origin: None,
        referer: None,
        user_agent: None,
        extra: Seq::empty(),
    }
}

impl Default for RequestHeaders {
    /// No header at all.
    fn default() -> (h: RequestHeaders)
        ensures
            h@ == empty_request_headers(),
    {
        let h = RequestHeaders {
            accept: Vec::new(),
            accept_encoding: Vec::new(),
            authorization: None,
            cache_control: None,
            content_length: None,
            content_type: None,
            encoding_type: None,
            origin: None,
            referer: None,
            user_agent: None,
            extra: HeaderMap::new(),
        };
        assert(h@.accept =~= Seq::<mime::Mime>::empty());
        assert(h@.accept_encoding =~= Seq::<(EncodingKind, Option<Seq<char>>)>::empty());
        h
    }
}

/// Why a header value was refused.
pub enum HeaderFault {
    /// This weight text is not a float literal.
    Float(Seq<char>),
    /// The value is not an unsigned integer that fits.
    Int,
    /// The value is not a media type.
    Media,
}

/// The request headers after reading the header field `name: value`: the
/// standard names set their field (`accept-encoding` is read as encodings,
/// `content-length` as an integer, `content-type` as a media type), any other
/// name is set among the extra headers.
pub open spec fn insert_header(h: RequestHeadersView, name: Seq<char>, value: Seq<char>) -> Result<
    RequestHeadersView,
    HeaderFault,
> {
    if name == ACCEPT_ENCODING@ {
        match parse_accept_encoding(value) {
            Ok(es) => Ok(RequestHeadersView { accept_encoding: es, ..h }),
            Err(w) => Err(HeaderFault::Float(w)),
        }
    } else if name == CONTENT_LENGTH@ {
        match parse_unsigned(value, usize::MAX as nat) {
            Some(n) => Ok(RequestHeadersView { content_length: Some(n as usize), ..h }),
            None => Err(HeaderFault::Int),
        }
    } else if name == CONTENT_TYPE@ {
        match parsed_mime(value) {
            Some(m) => Ok(RequestHeadersView { content_type: Some(m), ..h }),
            None => Err(HeaderFault::Media),
        }
    } else if name == AUTHORIZATION@ {
        Ok(RequestHeadersView { authorization: Some(value), ..h })
    } else if name == CACHE_CONTROL@ {
        Ok(RequestHeadersView { cache_control: Some(value), ..h })
    } else if name == ENCODING_TYPE@ {
        Ok(RequestHeadersView { encoding_type: Some(value), ..h })
    } else if name == ORIGIN@ {
        Ok(RequestHeadersView { origin: Some(value), ..h })
    } else if name == REFERER@ {
        Ok(RequestHeadersView { referer: Some(value), ..h })
    } else if name == USER_AGENT@ {
        Ok(RequestHeadersView { user_agent: Some(value), ..h })
    } else {
        Ok(RequestHeadersView { extra: entries_insert(h.extra, name, value), ..h })
    }
}

impl RequestHeaders {
    /// The name and value of a header field as text; `BadKey` when the name is
    /// not UTF-8, `BadValue` when the value is not.
    pub fn try_to_owned(header: &Header) -> (r: Result<(String, String), ParseHeaderError>)
        ensures
            r matches Ok((n, v)) ==> header_texts(header@) == Some((n@, v@)),
            r is Err ==> header_texts(header@) is None,
            r matches Err(e) ==> (!valid_utf8(header@.0) ==> (e matches ParseHeaderError::BadKey(b, _)
                && b@ == header@.0)),
            r matches Err(e) ==> (valid_utf8(header@.0) ==> (e matches ParseHeaderError::BadValue(n, _)
                && n@ == decode_utf8(header@.0))),
    {
        header_to_owned(header)
    }

    /// Reads one header field into these headers (see [`insert_header`]). The
    /// name and value must be UTF-8; a value that the field's reader refuses
    /// is an error (`ExpectedFloat`, `ExpectedInt` or `Unexpected`, naming the
    /// header), and then nothing changes.
    pub fn try_insert(&mut self, header: &Header) -> (r: Result<&mut RequestHeaders, ParseHeaderError>)
        ensures
            match header_texts(header@) {
                None => r is Err && final(self)@ == old(self)@ && (!valid_utf8(header@.0) ==> (r matches Err(
                    ParseHeaderError::BadKey(b, _),
                ) && b@ == header@.0)) && (valid_utf8(header@.0) ==> (r matches Err(
                    ParseHeaderError::BadValue(n, _),
                ) && n@ == decode_utf8(header@.0))),
                Some((n, v)) => match insert_header(old(self)@, n, v) {
                    Ok(h) => r matches Ok(x) && x@ == h && *final(self) == *final(x),
                    Err(HeaderFault::Float(w)) => final(self)@ == old(self)@ && (r matches Err(
                        ParseHeaderError::ExpectedFloat(hn, t),
                    ) && hn@ == n && t@ == w),
                    Err(HeaderFault::Int) => final(self)@ == old(self)@ && (r matches Err(
                        ParseHeaderError::ExpectedInt(hn, _),
                    ) && hn@ == n),
                    Err(HeaderFault::Media) => final(self)@ == old(self)@ && (r matches Err(
                        ParseHeaderError::Unexpected(hn, _),
                    ) && hn@ == n),
                },
            },
    {
        let (name, value) = match header_to_owned(header) {
            Ok(p) => p,
            Err(e) => return Err(e),
        };
        let v = chars_of(name.as_str());
        let n = v.len();
        assert(v@.subrange(0, n as int) =~= name@);
        if range_eq(&v, 0, n, ACCEPT_ENCODING) {
            match parse_accept_encoding_text(value.as_str()) {
                Ok(es) => {
                    self.accept_encoding = es;
                    assert(self@.accept_encoding =~= parse_accept_encoding(value@)->Ok_0);
                },
                Err(w) => return Err(ParseHeaderError::ExpectedFloat(name, w)),
            }
        } else if range_eq(&v, 0, n, CONTENT_LENGTH) {
            match parse_usize(value.as_str()) {
                Ok(x) => self.content_length = Some(x),
                Err(e) => return Err(ParseHeaderError::ExpectedInt(name, e)),
            }
        } else if range_eq(&v, 0, n, CONTENT_TYPE) {
            match mime_from_str(value.as_str()) {
                Ok(m) => self.content_type = Some(m),
                Err(e) => {
                    let t = mime_error_text(&e);
                    return Err(ParseHeaderError::Unexpected(name, t));
                },
            }
        } else if range_eq(&v, 0, n, AUTHORIZATION) {
            self.authorization = Some(value);
        } else if range_eq(&v, 0, n, CACHE_CONTROL) {
            self.cache_control = Some(value);
        } else if range_eq(&v, 0, n, ENCODING_TYPE) {
            self.encoding_type = Some(value);
        } else if range_eq(&v, 0, n, ORIGIN) {
            self.origin = Some(value);
        } else if range_eq(&v, 0, n, REFERER) {
            self.referer = Some(value);
        } else if range_eq(&v, 0, n, USER_AGENT) {
            self.user_agent = Some(value);
        } else {
            self.extra.insert(name, value);
        }
        Ok(self)
    }

    /// Reads one header field into the extra headers, whatever its name.
    pub fn try_insert_extra(&mut self, header: &Header) -> (r: Result<&mut RequestHeaders, ParseHeaderError>)
        ensures
            match header_texts(header@) {
                None => r is Err && final(self)@ == old(self)@,
                Some((n, v)) => r matches Ok(h) && h@ == (RequestHeadersView {
                    extra: entries_insert(old(self)@.extra, n, v),
                    ..old(self)@
                }) && *final(self) == *final(h),
            },
    {
        let (name, value) = match header_to_owned(header) {
            Ok(p) => p,
            Err(e) => return Err(e),
        };
        self.extra.insert(name, value);
        Ok(self)
    }
}


// ---------- response headers ----------

/// The standard and extra headers of a response.
#[derive(Debug, Clone)]
pub struct ResponseHeaders {
    /// The encoding of the response body, e.g. `gzip`.
    pub content_encoding: Encoding,
    /// The cache directives of the response.
    pub cache_control: Option<CacheControl>,
    /// The length of the response body in bytes.
    pub content_length: Option<usize>,
    /// The media type of the response body.
    pub content_type: Option<mime::Mime>,
    /// The encoding type of the response body, e.g. `chunked`.
    pub encoding_type: Option<String>,
    /// Every other header, by name.
    pub extra: HeaderMap,
}

impl Default for ResponseHeaders {
    /// `identity` encoding and nothing else.
    fn default() -> (h: ResponseHeaders)
        ensures
            h.content_encoding@ == (EncodingKind::Identity, None::<Seq<char>>),
            h.cache_control is None,
            h.content_length is None,
            h.content_type is None,
            h.encoding_type is None,
            h.extra@ == Seq::<(Seq<char>, Seq<char>)>::empty(),
    {
        ResponseHeaders {
            content_encoding: Encoding::default(),
            cache_control: None,
            content_length: None,
            content_type: None,
            encoding_type: None,
            extra: HeaderMap::new(),
        }
    }
}

/// The field `name: value` if there is a value, else nothing.
pub open spec fn optional_field(name: Seq<char>, value: Option<Seq<char>>) -> Seq<(Seq<char>, Seq<char>)> {
    match value {
        Some(v) => seq![(name, v)],
        None => Seq::empty(),
    }
}

/// The header fields that a response sends, as texts and in order: the content
/// encoding always, then cache control, content length, content type and
/// encoding type where they are set, then the extra headers.
pub open spec fn response_fields(h: ResponseHeaders) -> Seq<(Seq<char>, Seq<char>)> {
    seq![(CONTENT_ENCODING@, h.content_encoding@.0.spec_name())]
        + optional_field(CACHE_CONTROL@, match h.cache_control {
            Some(cc) => Some(cache_control_text(cc)),
            None => None,
        })
        + optional_field(CONTENT_LENGTH@, match h.content_length {
            Some(n) => Some(decimal(n as nat)),
            None => None,
        })
        + optional_field(CONTENT_TYPE@, match h.content_type {
            Some(m) => Some(mime_text(m)),
            None => None,
        })
        + optional_field(ENCODING_TYPE@, opt_text(h.encoding_type))
        + h.extra@
}

/// Header fields given as texts, sent as their UTF-8 bytes.
pub open spec fn fields_bytes(fs: Seq<(Seq<char>, Seq<char>)>) -> Seq<(Seq<u8>, Seq<u8>)> {
    fs.map_values(|f: (Seq<char>, Seq<char>)| (encode_utf8(f.0), encode_utf8(f.1)))
}

/// The name and value bytes of each header field of a list.
pub open spec fn headers_view(hs: Seq<Header>) -> Seq<(Seq<u8>, Seq<u8>)> {
    hs.map_values(|h: Header| h@)
}

/// Appends the field `name: value` to a list of header fields.
pub fn push_field(out: &mut Vec<Header>, name: &str, value: &str)
    ensures
        headers_view(final(out)@) == headers_view(old(out)@).push((encode_utf8(name@), encode_utf8(value@))),
{
    let h = Header::new(name.as_bytes(), value.as_bytes());
    out.push(h);
    assert(headers_view(out@) =~= headers_view(old(out)@).push((encode_utf8(name@), encode_utf8(value@))));
}

impl ResponseHeaders {
    /// The header fields to send for these headers (see [`response_fields`]).
    pub fn into_sendable(self) -> (r: Vec<Header>)
        ensures
            headers_view(r@) == fields_bytes(response_fields(self)),
    {
        self.sendable()
    }

    /// The header fields to send for these headers (see [`response_fields`]).
    pub fn sendable(&self) -> (r: Vec<Header>)
        ensures
            headers_view(r@) == fields_bytes(response_fields(*self)),
    {
        let ghost fs = response_fields(*self);
        let mut out: Vec<Header> = Vec::new();
        let ghost mut done: Seq<(Seq<char>, Seq<char>)> = Seq::empty();
        assert(headers_view(out@) =~= fields_bytes(done));
        let enc = self.content_encoding.to_string();
        push_field(&mut out, CONTENT_ENCODING, enc.as_str());
        proof {
            done = seq![(CONTENT_ENCODING@, self.content_encoding@.0.spec_name())];
            assert(headers_view(out@) =~= fields_bytes(done));
        }
        match &self.cache_control {
            Some(cc) => {
                let t = cc.to_string();
                push_field(&mut out, CACHE_CONTROL, t.as_str());
                proof {
                    let d0 = done;
                    done = done.push((CACHE_CONTROL@, t@));
                    assert(fields_bytes(done) =~= fields_bytes(d0).push((encode_utf8(CACHE_CONTROL@), encode_utf8(t@))));
                }
            },
            None => {},
        }
        proof {
            assert(done =~= seq![(CONTENT_ENCODING@, self.content_encoding@.0.spec_name())]
                + optional_field(CACHE_CONTROL@, match self.cache_control {
                    Some(cc) => Some(cache_control_text(cc)),
                    None => None,
                }));
        }
        let ghost d1 = done;
        match self.content_length {
            Some(n) => {
                let mut t = String::new();
                push_decimal(&mut t, n as u64);
                push_field(&mut out, CONTENT_LENGTH, t.as_str());
                proof {
                    let d0 = done;
                    done = done.push((CONTENT_LENGTH@, t@));
                    assert(fields_bytes(done) =~= fields_bytes(d0).push((encode_utf8(CONTENT_LENGTH@), encode_utf8(t@))));
                }
            },
            None => {},
        }
        proof {
            assert(done =~= d1 + optional_field(CONTENT_LENGTH@, match self.content_length {
                Some(n) => Some(decimal(n as nat)),
                None => None,
            }));
        }
        let ghost d2 = done;
        match &self.content_type {
            Some(m) => {
                let t = mime_to_text(m);
                push_field(&mut out, CONTENT_TYPE, t.as_str());
                proof {
                    let d0 = done;
                    done = done.push((CONTENT_TYPE@, t@));
                    assert(fields_bytes(done) =~= fields_bytes(d0).push((encode_utf8(CONTENT_TYPE@), encode_utf8(t@))));
                }
            },
            None => {},
        }
        proof {
            assert(done =~= d2 + optional_field(CONTENT_TYPE@, match self.content_type {
                Some(m) => Some(mime_text(m)),
                None => None,
            }));
        }
        let ghost d3 = done;
        match &self.encoding_type {
            Some(t) => {
                push_field(&mut out, ENCODING_TYPE, t.as_str());
                proof {
                    let d0 = done;
                    done = done.push((ENCODING_TYPE@, t@));
                    assert(fields_bytes(done) =~= fields_bytes(d0).push((encode_utf8(ENCODING_TYPE@), encode_utf8(t@))));
                }
            },
            None => {},
        }
        proof {
            assert(done =~= d3 + optional_field(ENCODING_TYPE@, opt_text(self.encoding_type)));
        }
        let ghost d4 = done;
        let mut i: usize = 0;
        let n = self.extra.len();
        while i < n
            invariant
                n == self.extra@.len(),
                i <= n,
                done == d4 + self.extra@.subrange(0, i as int),
                headers_view(out@) == fields_bytes(done),
            decreases n - i,
        {
            let (k, v) = self.extra.entry(i);
            push_field(&mut out, k.as_str(), v.as_str());
            proof {
                let d0 = done;
                done = done.push((k@, v@));
                assert(fields_bytes(done) =~= fields_bytes(d0).push((encode_utf8(k@), encode_utf8(v@))));
                assert(self.extra@.subrange(0, i + 1) =~= self.extra@.subrange(0, i as int).push(self.extra@[i as int]));
                assert(done =~= d4 + self.extra@.subrange(0, i + 1));
            }
            i = i + 1;
        }
        proof {
            assert(self.extra@.subrange(0, n as int) =~= self.extra@);
            assert(done =~= fs);
        }
        out
    }
}

/// Whether some field of a list has this name.
pub open spec fn names_field(fs: Seq<(Seq<char>, Seq<char>)>, name: Seq<char>) -> bool {
    exists|i: int| 0 <= i < fs.len() && (#[trigger] fs[i]).0 == name
}

/// The fields a response sends always start with its content encoding.
pub proof fn lemma_sent_fields_start_with_content_encoding(h: ResponseHeaders)
    ensures
        response_fields(h).len() >= 1,
        response_fields(h)[0] == (CONTENT_ENCODING@, h.content_encoding@.0.spec_name()),
{
}

/// An optional field that is not set is not sent, unless an extra header of
/// that name is; one that is set is sent.
pub proof fn lemma_sent_fields_follow_the_options(h: ResponseHeaders)
    ensures
        (h.cache_control is None && !names_field(h.extra@, CACHE_CONTROL@)) ==> !names_field(
            response_fields(h),
            CACHE_CONTROL@,
        ),
        (h.content_length is None && !names_field(h.extra@, CONTENT_LENGTH@)) ==> !names_field(
            response_fields(h),
            CONTENT_LENGTH@,
        ),
        (h.content_type is None && !names_field(h.extra@, CONTENT_TYPE@)) ==> !names_field(
            response_fields(h),
            CONTENT_TYPE@,
        ),
        (h.encoding_type is None && !names_field(h.extra@, ENCODING_TYPE@)) ==> !names_field(
            response_fields(h),
            ENCODING_TYPE@,
        ),
        h.cache_control is Some ==> names_field(response_fields(h), CACHE_CONTROL@),
        h.content_length is Some ==> names_field(response_fields(h), CONTENT_LENGTH@),
        h.content_type is Some ==> names_field(response_fields(h), CONTENT_TYPE@),
        h.encoding_type is Some ==> names_field(response_fields(h), ENCODING_TYPE@),
{
    reveal_strlit("content-encoding");
    reveal_strlit("cache-control");
    reveal_strlit("content-length");
    reveal_strlit("content-type");
    reveal_strlit("encoding-type");
    let fs = response_fields(h);
    let cc = optional_field(CACHE_CONTROL@, match h.cache_control {
        Some(c) => Some(cache_control_text(c)),
        None => None,
    });
    let cl = optional_field(CONTENT_LENGTH@, match h.content_length {
        Some(n) => Some(decimal(n as nat)),
        None => None,
    });
    let ct = optional_field(CONTENT_TYPE@, match h.content_type {
        Some(m) => Some(mime_text(m)),
        None => None,
    });
    let et = optional_field(ENCODING_TYPE@, opt_text(h.encoding_type));
    let head = seq![(CONTENT_ENCODING@, h.content_encoding@.0.spec_name())];
    assert(fs == head + cc + cl + ct + et + h.extra@);
    let names = seq![CONTENT_ENCODING@, CACHE_CONTROL@, CONTENT_LENGTH@, CONTENT_TYPE@, ENCODING_TYPE@];
    assert(CONTENT_ENCODING@[2] != CACHE_CONTROL@[2]);
    assert(CONTENT_ENCODING@[8] != CONTENT_LENGTH@[8]);
    assert(CONTENT_ENCODING@[8] != CONTENT_TYPE@[8]);
    assert(CONTENT_ENCODING@[0] != ENCODING_TYPE@[0]);
    assert(CACHE_CONTROL@[2] != CONTENT_LENGTH@[2]);
    assert(CACHE_CONTROL@[2] != CONTENT_TYPE@[2]);
    assert(CACHE_CONTROL@[0] != ENCODING_TYPE@[0]);
    assert(CONTENT_LENGTH@[8] != CONTENT_TYPE@[8]);
    assert(CONTENT_LENGTH@[0] != ENCODING_TYPE@[0]);
    assert(CONTENT_TYPE@[0] != ENCODING_TYPE@[0]);
    let a: int = (head.len() + cc.len()) as int;
    let b: int = a + cl.len();
    let c: int = b + ct.len();
    let d: int = c + et.len();
    assert forall|i: int| 0 <= i < fs.len() implies (#[trigger] fs[i]).0 == (if i == 0 {
        CONTENT_ENCODING@
    } else if i < a {
        CACHE_CONTROL@
    } else if i < b {
        CONTENT_LENGTH@
    } else if i < c {
        CONTENT_TYPE@
    } else if i < d {
        ENCODING_TYPE@
    } else {
        h.extra@[i - d].0
    }) by {
    }
    if h.cache_control is Some {
        assert(fs[1].0 == CACHE_CONTROL@);
    }
    if h.content_length is Some {
        assert(fs[a].0 == CONTENT_LENGTH@);
    }
    if h.content_type is Some {
        assert(fs[b].0 == CONTENT_TYPE@);
    }
    if h.encoding_type is Some {
        assert(fs[c].0 == ENCODING_TYPE@);
    }
    assert forall|name: Seq<char>|
        #![trigger names_field(fs, name)]
        names_field(fs, name) && !names_field(h.extra@, name) && names.contains(name) ==> (name
            == CONTENT_ENCODING@ || (name == CACHE_CONTROL@ && h.cache_control is Some) || (name
            == CONTENT_LENGTH@ && h.content_length is Some) || (name == CONTENT_TYPE@
            && h.content_type is Some) || (name == ENCODING_TYPE@ && h.encoding_type is Some)) by {
        if names_field(fs, name) && !names_field(h.extra@, name) && names.contains(name) {
            let i = choose|i: int| 0 <= i < fs.len() && (#[trigger] fs[i]).0 == name;
            if i >= d {
                assert(h.extra@[i - d].0 == name);
            }
        }
    }
    assert(names[1] == CACHE_CONTROL@);
    assert(names[2] == CONTENT_LENGTH@);
    assert(names[3] == CONTENT_TYPE@);
    assert(names[4] == ENCODING_TYPE@);
}

} // verus!
