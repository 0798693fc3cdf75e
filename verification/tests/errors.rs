use protest::error::ServerError;
use protest::request::builder::RequestBuilderError;
use protest::request::RequestParamKind;
use protest::types::error::{ProtestError, RequestError, ResponseError};
use protest::types::json::Json;

#[test]
fn protest_error_texts() {
    assert_eq!(ProtestError::NoRoute.to_string(), "Router couldn't find any matching handlers");
    assert_eq!(
        ProtestError::from("boom").to_string(),
        "Unhandled/unexpected error: boom"
    );
    assert_eq!(
        ProtestError::from(RequestBuilderError::Missing("Path is required")).to_string(),
        "Missing required field: Path is required"
    );
    assert_eq!(
        ProtestError::from(ResponseError::Send("closed".to_string())).to_string(),
        "Failed to send response object: closed"
    );
}

#[test]
fn invalid_parameter_text() {
    let err = RequestError::Invalid {
        name: "id".to_string(),
        kind: RequestParamKind::Path,
        raw_value: Some("x".to_string()),
        conversion_type: Some("u32".to_string()),
        message: "invalid digit found in string".to_string(),
    };
    assert_eq!(
        err.to_string(),
        "Failed to convert parameter 'path' named 'id' to Some(\"u32\") for value Some(\"x\"): invalid digit found in string"
    );
    let none = RequestError::Invalid {
        name: "id".to_string(),
        kind: RequestParamKind::Query,
        raw_value: None,
        conversion_type: None,
        message: "m".to_string(),
    };
    assert_eq!(none.to_string(), "Failed to convert parameter 'query' named 'id' to None for value None: m");
}

#[test]
fn param_kind_names() {
    assert_eq!(RequestParamKind::Query.to_string(), "query");
    assert_eq!(RequestParamKind::Path.to_string(), "path");
    assert_eq!(RequestParamKind::Header.to_string(), "header");
    assert_eq!(RequestParamKind::Body.to_string(), "body");
}

#[test]
fn server_error_texts() {
    assert_eq!(ServerError::NoRoute.to_string(), "Router couldn't find any matching handlers");
    assert_eq!(ServerError::from("plain").to_string(), "plain");
    assert_eq!(
        ServerError::from(RequestBuilderError::Missing("Body is required")).to_string(),
        "Missing required field: Body is required"
    );
}

#[test]
fn json_wrapper_flags() {
    assert!(Json::pretty(1).is_pretty());
    assert!(!Json::minified(1).is_pretty());
    assert!(Json::new(1, true).is_pretty());
    assert!(!Json::new(1, false).is_pretty());
    assert_eq!(Json::minified(vec![1, 2]).into_inner(), vec![1, 2]);
    assert_eq!(*Json::pretty("x").inner(), "x");
}
