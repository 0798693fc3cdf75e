//! JSON values and bodies.

use vstd::prelude::*;

verus! {

/// `serde_json::Value`, carried through unopened.
#[verifier::external_type_specification]
#[verifier::external_body]
pub struct ExJsonValue(serde_json::Value);

/// `serde_json::Error`, carried through unopened.
#[verifier::external_type_specification]
#[verifier::external_body]
pub struct ExJsonError(serde_json::Error);

/// The JSON value that `serde_json` reads from these bytes, if it accepts them.
pub uninterp spec fn json_value_of(bytes: Seq<u8>) -> Option<serde_json::Value>;

/// `serde_json::from_slice::<Value>`: the JSON value the bytes hold, or the
/// parser's error. Its result depends on the bytes alone.
#[verifier::external_body]
pub(crate) fn json_from_slice(bytes: &[u8]) -> (r: Result<serde_json::Value, serde_json::Error>)
    ensures
        r is Ok <==> json_value_of(bytes@) is Some,
        r matches Ok(v) ==> json_value_of(bytes@) == Some(v),
{
    serde_json::from_slice::<serde_json::Value>(bytes)
}

/// `<serde_json::Error as Display>::fmt`, as text. Nothing is stated of it:
/// the error has no model here.
#[verifier::external_body]
pub(crate) fn json_error_text(e: &serde_json::Error) -> String {
    e.to_string()
}

/// A value sent or received as JSON, written pretty (indented) or minified.
#[derive(Debug)]
pub struct Json<T> {
    inner: T,
    pretty: bool,
}

impl<T> Json<T> {
    /// The value.
    pub closed spec fn value(self) -> T {
        self.inner
    }

    /// Whether it is written pretty.
    pub closed spec fn spec_pretty(self) -> bool {
        self.pretty
    }

    /// The value, written pretty on debug builds and minified on release
    /// builds (`debug_build` says which this is).
    pub fn new(inner: T, debug_build: bool) -> (j: Json<T>)
        ensures
            j.value() == inner,
            j.spec_pretty() == debug_build,
    {
        Json { inner, pretty: debug_build }
    }

    /// The value, always written minified.
    pub fn minified(inner: T) -> (j: Json<T>)
        ensures
            j.value() == inner,
            !j.spec_pretty(),
    {
        Json { inner, pretty: false }
    }

    /// The value, always written pretty.
    pub fn pretty(inner: T) -> (j: Json<T>)
        ensures
            j.value() == inner,
            j.spec_pretty(),
    {
        Json { inner, pretty: true }
    }

    /// Whether it is written pretty.
    pub fn is_pretty(&self) -> (b: bool)
        ensures
            b == self.spec_pretty(),
    {
        self.pretty
    }

    /// The value.
    pub fn into_inner(self) -> (v: T)
        ensures
            v == self.value(),
    {
        self.inner
    }

    /// The value, borrowed.
    pub fn inner(&self) -> (v: &T)
        ensures
            *v == self.value(),
    {
        &self.inner
    }
}

} // verus!
