use protest::http::headers::{Header, ParseHeaderError, RequestHeaders};
use protest::http::method::Method;
use protest::request::builder::{RequestBuilder, RequestBuilderError};
use protest::request::Request;
use std::path::PathBuf;

fn full_builder() -> RequestBuilder<Vec<u8>> {
    let mut b = RequestBuilder::new();
    b.method(Method::POST)
        .path("/index.html")
        .authority("www.example.com")
        .scheme("https")
        .body(vec![1u8, 2, 3]);
    b
}
use protest::request::body::FromBody;
#[test]
fn builder_test_build_fully_valid() {
    let req: Request<Vec<u8>> = full_builder().build().unwrap();
    assert_eq!(req.method, Method::POST);
    assert_eq!(PathBuf::from(&req.path), PathBuf::from("/index.html"));
    assert_eq!(req.authority, "www.example.com");
    assert_eq!(req.scheme, "https");
    assert_eq!(req.body, vec![1u8, 2, 3]);
}

#[test]
fn builder_test_build_fails_missing_path() {
    let mut b: RequestBuilder<Vec<u8>> = RequestBuilder::new();
    b.authority("www.example.com").scheme("https").body(vec![]);
    assert!(matches!(b.build(), Err(RequestBuilderError::Missing(_))));
}

#[test]
fn builder_test_build_fails_missing_authority() {
    let mut b: RequestBuilder<Vec<u8>> = RequestBuilder::new();
    b.path("/").scheme("https").body(vec![]);
    assert!(matches!(b.build(), Err(RequestBuilderError::Missing(_))));
}

#[test]
fn builder_test_build_fails_missing_scheme() {
    let mut b: RequestBuilder<Vec<u8>> = RequestBuilder::new();
    b.path("/").authority("www.example.com").body(vec![]);
    assert!(matches!(b.build(), Err(RequestBuilderError::Missing(_))));
}

#[test]
fn builder_test_build_fails_missing_body() {
    let mut b: RequestBuilder<Vec<u8>> = RequestBuilder::new();
    b.path("/").authority("www.example.com").scheme("https");
    assert!(matches!(b.build(), Err(RequestBuilderError::Missing(_))));
}

#[test]
fn builder_test_default_builder_method_and_body_assosiated() {
    let builder: RequestBuilder<Vec<u8>> = RequestBuilder::default();
    assert_eq!(builder.method, Method::GET);
    assert!(!builder.body_assosiated);
}

#[test]
fn builder_test_body_assosiated_flag_is_set() {
    let mut b: RequestBuilder<Vec<u8>> = RequestBuilder::new();
    b.path("/")
        .authority("localhost")
        .scheme("https")
        .body(vec![])
        .body_assosiated(true);
    let req = b.build().unwrap();
    assert!(req.body_assosiated);
}

#[test]
fn builder_test_method_setter_changes_method() {
    let mut builder: RequestBuilder<Vec<u8>> = RequestBuilder::new();
    assert_eq!(builder.method, Method::GET);
    builder.method(Method::POST);
    assert_eq!(builder.method, Method::POST);
}

#[test]
fn builder_test_missing_error_display_contains_expected_prefix() {
    let msg = RequestBuilderError::Missing("Path is required").to_string();
    assert!(msg.contains("Missing required field"));
}
#[test]
fn builder_build_fully_valid() {
    let req: Request<Vec<u8>> = full_builder().build().unwrap();
    assert_eq!(req.method, Method::POST);
    assert_eq!(PathBuf::from(&req.path), PathBuf::from("/index.html"));
    assert_eq!(req.authority, "www.example.com");
    assert_eq!(req.scheme, "https");
    assert_eq!(req.body, vec![1u8, 2, 3]);
}

#[test]
fn builder_build_fails_missing_path() {
    let mut b: RequestBuilder<Vec<u8>> = RequestBuilder::new();
    b.authority("www.example.com").scheme("https").body(vec![]);
    assert!(matches!(b.build(), Err(RequestBuilderError::Missing(_))));
}

#[test]
fn builder_build_fails_missing_authority() {
    let mut b: RequestBuilder<Vec<u8>> = RequestBuilder::new();
    b.path("/").scheme("https").body(vec![]);
    assert!(matches!(b.build(), Err(RequestBuilderError::Missing(_))));
}

#[test]
fn builder_build_fails_missing_scheme() {
    let mut b: RequestBuilder<Vec<u8>> = RequestBuilder::new();
    b.path("/").authority("www.example.com").body(vec![]);
    assert!(matches!(b.build(), Err(RequestBuilderError::Missing(_))));
}

#[test]
fn builder_build_fails_missing_body() {
    let mut b: RequestBuilder<Vec<u8>> = RequestBuilder::new();
    b.path("/").authority("www.example.com").scheme("https");
    assert!(matches!(b.build(), Err(RequestBuilderError::Missing(_))));
}

#[test]
fn builder_default_builder_method_and_body_assosiated() {
    let builder: RequestBuilder<Vec<u8>> = RequestBuilder::default();
    assert_eq!(builder.method, Method::GET);
    assert!(!builder.body_assosiated);
}

#[test]
fn builder_body_assosiated_flag_is_set() {
    let mut b: RequestBuilder<Vec<u8>> = RequestBuilder::new();
    b.path("/")
        .authority("localhost")
        .scheme("https")
        .body(vec![])
        .body_assosiated(true);
    let req = b.build().unwrap();
    assert!(req.body_assosiated);
}

#[test]
fn builder_method_setter_changes_method() {
    let mut builder: RequestBuilder<Vec<u8>> = RequestBuilder::new();
    assert_eq!(builder.method, Method::GET);
    builder.method(Method::POST);
    assert_eq!(builder.method, Method::POST);
}

#[test]
fn builder_missing_error_display_contains_expected_prefix() {
    let msg = RequestBuilderError::Missing("Path is required").to_string();
    assert!(msg.contains("Missing required field"));
}
#[test]
fn mod_test_from_body_parses_valid_json_value() {
    let val: serde_json::Value =
        serde_json::Value::from_body(br#"{"key": "value", "num": 42}"#).unwrap();
    assert_eq!(val["key"], "value");
    assert_eq!(val["num"], 42);
}

#[test]
fn mod_test_from_body_errors_on_invalid_json() {
    assert!(serde_json::Value::from_body(b"not json at all {{{").is_err());
}

#[test]
fn mod_test_request_buffer_fields_are_accessible() {
    let req: Request<Vec<u8>> = Request {
        method: Method::POST,
        path: "/api/data".to_string(),
        authority: "api.example.com".to_string(),
        scheme: "https".to_string(),
        headers: RequestHeaders::default(),
        body: vec![1, 2, 3],
        body_assosiated: true,
    };

    assert_eq!(req.method, Method::POST);
    assert_eq!(PathBuf::from(&req.path), PathBuf::from("/api/data"));
    assert_eq!(req.authority, "api.example.com");
    assert_eq!(req.scheme, "https");
    assert_eq!(req.body, vec![1u8, 2, 3]);
    assert!(req.body_assosiated);
}

#[test]
fn mod_test_request_default_headers_are_empty() {
    let req: Request<Vec<u8>> = Request {
        method: Method::GET,
        path: "/".to_string(),
        authority: "localhost".to_string(),
        scheme: "https".to_string(),
        headers: RequestHeaders::default(),
        body: vec![],
        body_assosiated: false,
    };

    assert!(req.headers.accept.is_empty());
    assert!(req.headers.accept_encoding.is_empty());
    assert!(req.headers.authorization.is_none());
    assert!(req.headers.content_type.is_none());
    assert!(req.headers.content_length.is_none());
    assert!(req.headers.origin.is_none());
    assert!(req.headers.user_agent.is_none());
    assert!(req.headers.extra.is_empty());
}
#[test]
fn mod_from_body_parses_valid_json_value() {
    let val: serde_json::Value =
        serde_json::Value::from_body(br#"{"key": "value", "num": 42}"#).unwrap();
    assert_eq!(val["key"], "value");
    assert_eq!(val["num"], 42);
}

#[test]
fn mod_from_body_errors_on_invalid_json() {
    assert!(serde_json::Value::from_body(b"not json at all {{{").is_err());
}

#[test]
fn mod_request_buffer_fields_are_accessible() {
    let req: Request<Vec<u8>> = Request {
        method: Method::POST,
        path: "/api/data".to_string(),
        authority: "api.example.com".to_string(),
        scheme: "https".to_string(),
        headers: RequestHeaders::default(),
        body: vec![1, 2, 3],
        body_assosiated: true,
    };

    assert_eq!(req.method, Method::POST);
    assert_eq!(PathBuf::from(&req.path), PathBuf::from("/api/data"));
    assert_eq!(req.authority, "api.example.com");
    assert_eq!(req.scheme, "https");
    assert_eq!(req.body, vec![1u8, 2, 3]);
    assert!(req.body_assosiated);
}

#[test]
fn mod_request_default_headers_are_empty() {
    let req: Request<Vec<u8>> = Request {
        method: Method::GET,
        path: "/".to_string(),
        authority: "localhost".to_string(),
        scheme: "https".to_string(),
        headers: RequestHeaders::default(),
        body: vec![],
        body_assosiated: false,
    };

    assert!(req.headers.accept.is_empty());
    assert!(req.headers.accept_encoding.is_empty());
    assert!(req.headers.authorization.is_none());
    assert!(req.headers.content_type.is_none());
    assert!(req.headers.content_length.is_none());
    assert!(req.headers.origin.is_none());
    assert!(req.headers.user_agent.is_none());
    assert!(req.headers.extra.is_empty());
}

fn h(name: &str, value: &str) -> Header {
    Header::new(name.as_bytes(), value.as_bytes())
}

#[test]
fn incoming_headers_make_a_request() {
    let headers = vec![
        h(":method", "POST"),
        h(":path", "/items/7"),
        h(":scheme", "https"),
        h(":authority", "example.com"),
        h("accept-encoding", "gzip br"),
        h("content-length", "12"),
        h("x-trace", "abc"),
    ];
    let req = Request::try_from_incoming(&headers, false, 5u32).unwrap();
    assert_eq!(req.method, Method::POST);
    assert_eq!(req.path_str(), "/items/7");
    assert_eq!(req.scheme, "https");
    assert_eq!(req.authority, "example.com");
    assert_eq!(req.headers.accept_encoding.len(), 2);
    assert_eq!(req.headers.content_length, Some(12));
    assert_eq!(req.headers.extra.get("x-trace"), Some(&"abc".to_string()));
    assert_eq!(req.body, 5u32);
    assert!(req.body_assosiated);
}

#[test]
fn incoming_without_path_is_missing_path() {
    let headers = vec![h(":method", "GET"), h(":scheme", "https"), h(":authority", "a")];
    match Request::try_from_incoming(&headers, true, ()) {
        Err(RequestBuilderError::Missing(m)) => assert_eq!(m, "Path is required"),
        other => panic!("expected Missing, got {other:?}"),
    }
}

#[test]
fn incoming_missing_fields_are_reported_in_order() {
    let only_path = vec![h(":path", "/")];
    match Request::try_from_incoming(&only_path, true, ()) {
        Err(RequestBuilderError::Missing(m)) => assert_eq!(m, "Authority is required"),
        other => panic!("expected Missing, got {other:?}"),
    }
    let no_scheme = vec![h(":path", "/"), h(":authority", "a")];
    match Request::try_from_incoming(&no_scheme, true, ()) {
        Err(RequestBuilderError::Missing(m)) => assert_eq!(m, "Scheme is required"),
        other => panic!("expected Missing, got {other:?}"),
    }
}

#[test]
fn incoming_unknown_method_is_a_header_error() {
    let headers = vec![h(":method", "get"), h(":path", "/"), h(":scheme", "https"), h(":authority", "a")];
    match Request::try_from_incoming(&headers, true, ()) {
        Err(RequestBuilderError::Header(ParseHeaderError::Unexpected(what, why))) => {
            assert_eq!(what, "Method");
            assert_eq!(why, "Matching variant not found");
        }
        other => panic!("expected a header error, got {other:?}"),
    }
}

#[test]
fn incoming_without_method_is_get() {
    let headers = vec![h(":path", "/"), h(":scheme", "https"), h(":authority", "a")];
    let req = Request::try_from_incoming(&headers, true, ()).unwrap();
    assert_eq!(req.method, Method::GET);
    assert!(!req.body_assosiated);
}

#[test]
fn incoming_bad_path_bytes_is_bad_value() {
    let headers = vec![Header::new(b":path", &[0xC3]), h(":scheme", "https"), h(":authority", "a")];
    assert!(matches!(
        Request::try_from_incoming(&headers, true, ()),
        Err(RequestBuilderError::Header(ParseHeaderError::BadValue(_, _)))
    ));
}

#[test]
fn method_from_header_value() {
    assert_eq!(Method::try_from_header(&h(":method", "DELETE")).unwrap(), Method::DELETE);
    assert!(matches!(
        Method::try_from_header(&Header::new(b":method", &[0xFF])),
        Err(ParseHeaderError::BadValue(_, _))
    ));
}

#[test]
fn string_body_is_lossy_text() {
    assert_eq!(String::from_body(b"hello").unwrap(), "hello");
    assert_eq!(String::from_body(&[0x68, 0xFF]).unwrap(), "h\u{FFFD}");
    assert_eq!(String::content_type().unwrap(), mime::TEXT_PLAIN);
    assert_eq!(String::content_type_name().unwrap(), "text/plain");
    assert_eq!(serde_json::Value::content_type_name().unwrap(), "application/json");
}

#[test]
fn missing_error_display_is_exact() {
    let msg = RequestBuilderError::Missing("Body is required").to_string();
    assert_eq!(msg, "Missing required field: Body is required");
}

#[test]
fn setters_set_only_their_field() {
    let mut b: RequestBuilder<u8> = RequestBuilder::new();
    b.scheme("http").headers(RequestHeaders::default());
    assert_eq!(b.scheme.as_deref(), Some("http"));
    assert!(b.path.is_none());
    assert!(b.authority.is_none());
    assert!(b.body.is_none());
    assert_eq!(b.method, Method::GET);
}
