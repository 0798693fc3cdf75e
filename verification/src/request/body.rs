//! Reading a request body into a value.

use crate::http::headers::{mime_text, mime_to_text};
use crate::types::error::{ProtestError, RequestError};
use crate::types::json::{json_from_slice, json_value_of};
use vstd::prelude::*;
use vstd::string::*;
use vstd::utf8::{decode_utf8, valid_utf8};

verus! {

/// `mime::APPLICATION_JSON`.
#[verifier::external_body]
pub(crate) fn application_json() -> (m: mime::Mime)
    ensures
        mime_text(m) == "application/json"@,
{
    mime::APPLICATION_JSON
}

/// `mime::TEXT_PLAIN`.
#[verifier::external_body]
pub(crate) fn text_plain() -> (m: mime::Mime)
    ensures
        mime_text(m) == "text/plain"@,
{
    mime::TEXT_PLAIN
}

/// The text that `String::from_utf8_lossy` makes of these bytes.
pub uninterp spec fn lossy_text(bytes: Seq<u8>) -> Seq<char>;

/// `String::from_utf8_lossy`, owned: the text the bytes encode when they are
/// valid UTF-8; otherwise each invalid sequence becomes U+FFFD (what that
/// gives is named, not stated).
#[verifier::external_body]
fn utf8_lossy(bytes: &[u8]) -> (s: String)
    ensures
        s@ == lossy_text(bytes@),
        valid_utf8(bytes@) ==> s@ == decode_utf8(bytes@),
{
    String::from_utf8_lossy(bytes).to_string()
}

/// A value that a request body can be read into.
pub trait FromBody: Sized {
    /// The value the body holds, or why it holds none.
    fn from_body(bytes: &[u8]) -> Result<Self, ProtestError>;

    /// The name of the media type such a body has, if one is known.
    spec fn content_type_text() -> Option<Seq<char>>;

    /// The media type such a body has, if one is known.
    fn content_type() -> (m: Option<mime::Mime>)
        ensures
            match m {
                Some(t) => Self::content_type_text() == Some(mime_text(t)),
                None => Self::content_type_text() is None,
            },
    ;

    /// The name of that media type.
    fn content_type_name() -> (r: Option<String>)
        ensures
            match Self::content_type_text() {
                Some(t) => r matches Some(s) && s@ == t,
                None => r is None,
            },
    {
        match Self::content_type() {
            Some(m) => Some(mime_to_text(&m)),
            None => None,
        }
    }
}

impl FromBody for String {
    /// The body as text; invalid UTF-8 is replaced, never refused.
    fn from_body(bytes: &[u8]) -> (r: Result<String, ProtestError>)
        ensures
            r matches Ok(s) && s@ == lossy_text(bytes@),
            valid_utf8(bytes@) ==> (r matches Ok(s) && s@ == decode_utf8(bytes@)),
    {
        Ok(utf8_lossy(bytes))
    }

    open spec fn content_type_text() -> Option<Seq<char>> {
        Some("text/plain"@)
    }

    /// `text/plain`.
    fn content_type() -> (m: Option<mime::Mime>)
        ensures
            m matches Some(t) && mime_text(t) == "text/plain"@,
    {
        Some(text_plain())
    }
}

impl FromBody for serde_json::Value {
    /// The JSON value of the body, or a `Deserialize` request error.
    fn from_body(bytes: &[u8]) -> (r: Result<serde_json::Value, ProtestError>)
        ensures
            match json_value_of(bytes@) {
                Some(v) => r matches Ok(w) && w == v,
                None => r matches Err(ProtestError::Request(RequestError::Deserialize(_))),
            },
    {
        match json_from_slice(bytes) {
            Ok(v) => Ok(v),
            Err(e) => Err(ProtestError::Request(RequestError::Deserialize(e))),
        }
    }

    open spec fn content_type_text() -> Option<Seq<char>> {
        Some("application/json"@)
    }

    /// `application/json`.
    fn content_type() -> (m: Option<mime::Mime>)
        ensures
            m matches Some(t) && mime_text(t) == "application/json"@,
    {
        Some(application_json())
    }
}

} // verus!
