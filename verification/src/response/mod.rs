//! Responses: a status, headers and a body, and the header fields that open
//! the response stream.

use crate::http::headers::{
    fields_bytes, headers_view, mime_text, mime_to_text, optional_field, push_field,
    response_fields, Header, ResponseHeaders, CONTENT_TYPE, STATUS,
};
use crate::http::encoding::EncodingKind;
use crate::http::status::Status;
use crate::text::{ascii_bytes, decimal};
use vstd::prelude::*;
use vstd::slice::slice_to_vec;
use vstd::string::*;
use vstd::utf8::encode_utf8;

verus! {

/// A response: its status, headers and body.
#[derive(Debug)]
pub struct Response<T> {
    pub status: Status,
    pub headers: ResponseHeaders,
    pub body: T,
}

/// A status and a body, without headers.
#[derive(Debug)]
pub struct TypedResponse<T> {
    pub status: Status,
    pub body: T,
}

/// The header fields that open a response: `:status` with the decimal code
/// first, then the fields of its headers (see [`response_fields`]), then, if
/// its headers name no content type, the body's default content type.
pub open spec fn response_header_bytes<T>(r: Response<T>, default_content_type: mime::Mime) -> Seq<
    (Seq<u8>, Seq<u8>),
> {
    seq![(encode_utf8(STATUS@), ascii_bytes(decimal(r.status.spec_code() as nat)))] + fields_bytes(
        response_fields(r.headers) + optional_field(
            CONTENT_TYPE@,
            if r.headers.content_type is None {
                Some(mime_text(default_content_type))
            } else {
                None
            },
        ),
    )
}

/// The bytes of a text.
pub open spec fn text_bytes(s: &str) -> Seq<u8> {
    encode_utf8(s@)
}

impl<T> Response<T> {
    /// A response with this status and body and the default headers.
    pub fn new(status: Status, body: T) -> (r: Response<T>)
        ensures
            r.status == status,
            r.body == body,
            r.headers.content_encoding@ == (EncodingKind::Identity, None::<Seq<char>>),
            r.headers.cache_control is None,
            r.headers.content_length is None,
            r.headers.content_type is None,
            r.headers.encoding_type is None,
            r.headers.extra@ == Seq::<(Seq<char>, Seq<char>)>::empty(),
    {
        Response::new_with_headers(status, ResponseHeaders::default(), body)
    }

    /// A response with this status, headers and body.
    pub fn new_with_headers(status: Status, headers: ResponseHeaders, body: T) -> (r: Response<T>)
        ensures
            r == (Response { status, headers, body }),
    {
        Response { status, headers, body }
    }

    /// The header fields that open this response (see
    /// [`response_header_bytes`]).
    pub fn header_list(&self, default_content_type: &mime::Mime) -> (r: Vec<Header>)
        ensures
            headers_view(r@) == response_header_bytes(*self, *default_content_type),
    {
        let mut headers = self.headers.sendable();
        let code = self.status.bytes();
        let st = Header::new(STATUS.as_bytes(), code.as_slice());
        let ghost before = headers_view(headers@);
        headers.insert(0, st);
        assert(headers_view(headers@) =~= seq![st@] + before);
        let ghost mid = headers_view(headers@);
        let ghost fields = response_fields(self.headers);
        if self.headers.content_type.is_none() {
            let t = mime_to_text(default_content_type);
            push_field(&mut headers, CONTENT_TYPE, t.as_str());
            proof {
                assert(fields + optional_field(CONTENT_TYPE@, Some(t@)) =~= fields.push((CONTENT_TYPE@, t@)));
                assert(fields_bytes(fields.push((CONTENT_TYPE@, t@))) =~= fields_bytes(fields).push(
                    (encode_utf8(CONTENT_TYPE@), encode_utf8(t@)),
                ));
            }
        } else {
            proof {
                assert(fields + optional_field(CONTENT_TYPE@, None) =~= fields);
            }
        }
        assert(headers_view(headers@) =~= response_header_bytes(*self, *default_content_type));
        headers
    }
}

impl Response<Vec<u8>> {
    /// `404 Not Found`, default headers, body `Route not found`.
    pub fn route_not_found() -> (r: Response<Vec<u8>>)
        ensures
            r.status == Status::NotFound,
            r.body@ == text_bytes("Route not found"),
            r.headers.content_type is None,
            r.headers.content_length is None,
    {
        let body = "Route not found".as_bytes();
        Response::new(Status::NotFound, slice_to_vec(body))
    }

    /// `500 Internal Server Error`, default headers, body `Internal server error`.
    pub fn fallback() -> (r: Response<Vec<u8>>)
        ensures
            r.status == Status::InternalServerError,
            r.body@ == text_bytes("Internal server error"),
            r.headers.content_type is None,
            r.headers.content_length is None,
    {
        let body = "Internal server error".as_bytes();
        Response::new(Status::InternalServerError, slice_to_vec(body))
    }
}

} // verus!
