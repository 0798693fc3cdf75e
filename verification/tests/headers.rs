use protest::http::cache_control::{Cachability, CacheControl};
use protest::http::encoding::Encoding;
use protest::http::header_map::HeaderMap;
use protest::http::headers::{Header, ParseHeaderError, RequestHeaders, ResponseHeaders};
use std::time::Duration;

fn make_header(name: &[u8], value: &[u8]) -> Header {
    Header::new(name, value)
}

fn find_header<'a>(headers: &'a [Header], name: &[u8]) -> Option<&'a [u8]> {
    headers.iter().find(|h| h.name() == name).map(|h| h.value())
}

#[test]
fn headers_test_try_to_owned_valid_ascii() {
    let result =
        RequestHeaders::try_to_owned(&make_header(b"content-type", b"application/json")).unwrap();
    assert_eq!(
        result,
        ("content-type".to_string(), "application/json".to_string())
    );
}

#[test]
fn headers_test_try_to_owned_invalid_utf8_in_name() {
    let result = RequestHeaders::try_to_owned(&make_header(&[0xFF, 0xFE], b"value"));
    assert!(matches!(result, Err(ParseHeaderError::BadKey(_, _))));
}

#[test]
fn headers_test_try_to_owned_invalid_utf8_in_value() {
    let result = RequestHeaders::try_to_owned(&make_header(b"content-type", &[0xFF, 0xFE]));
    assert!(matches!(result, Err(ParseHeaderError::BadValue(_, _))));
}

#[test]
fn headers_test_insert_authorization() {
    let mut headers = RequestHeaders::default();
    headers
        .try_insert(&make_header(b"authorization", b"Bearer token123"))
        .unwrap();
    assert_eq!(headers.authorization, Some("Bearer token123".to_string()));
}

#[test]
fn headers_test_insert_cache_control() {
    let mut headers = RequestHeaders::default();
    headers
        .try_insert(&make_header(b"cache-control", b"no-cache"))
        .unwrap();
    assert_eq!(headers.cache_control, Some("no-cache".to_string()));
}

#[test]
fn headers_test_insert_content_length_valid() {
    let mut headers = RequestHeaders::default();
    headers
        .try_insert(&make_header(b"content-length", b"1024"))
        .unwrap();
    assert_eq!(headers.content_length, Some(1024));
}

#[test]
fn headers_test_insert_content_length_non_numeric() {
    let mut headers = RequestHeaders::default();
    let result = headers.try_insert(&make_header(b"content-length", b"abc"));
    assert!(matches!(result, Err(ParseHeaderError::ExpectedInt(_, _))));
}

#[test]
fn headers_test_insert_content_type_json() {
    let mut headers = RequestHeaders::default();
    headers
        .try_insert(&make_header(b"content-type", b"application/json"))
        .unwrap();
    assert_eq!(headers.content_type, Some(mime::APPLICATION_JSON));
}

#[test]
fn headers_test_insert_encoding_type() {
    let mut headers = RequestHeaders::default();
    headers
        .try_insert(&make_header(b"encoding-type", b"chunked"))
        .unwrap();
    assert_eq!(headers.encoding_type, Some("chunked".to_string()));
}

#[test]
fn headers_test_insert_origin() {
    let mut headers = RequestHeaders::default();
    headers
        .try_insert(&make_header(b"origin", b"https://example.com"))
        .unwrap();
    assert_eq!(headers.origin, Some("https://example.com".to_string()));
}

#[test]
fn headers_test_insert_referer() {
    let mut headers = RequestHeaders::default();
    headers
        .try_insert(&make_header(b"referer", b"https://example.com/page"))
        .unwrap();
    assert_eq!(
        headers.referer,
        Some("https://example.com/page".to_string())
    );
}

#[test]
fn headers_test_insert_user_agent() {
    let mut headers = RequestHeaders::default();
    headers
        .try_insert(&make_header(b"user-agent", b"TestAgent/1.0"))
        .unwrap();
    assert_eq!(headers.user_agent, Some("TestAgent/1.0".to_string()));
}

#[test]
fn headers_test_insert_unknown_header_goes_to_extra() {
    let mut headers = RequestHeaders::default();
    headers
        .try_insert(&make_header(b"x-custom-header", b"custom-value"))
        .unwrap();
    assert_eq!(
        headers.extra.get("x-custom-header"),
        Some(&"custom-value".to_string())
    );
}

#[test]
fn headers_test_insert_accept_encoding_gzip() {
    let mut headers = RequestHeaders::default();
    headers
        .try_insert(&make_header(b"accept-encoding", b"gzip"))
        .unwrap();
    assert_eq!(headers.accept_encoding.len(), 1);
    assert!(matches!(headers.accept_encoding[0], Encoding::Gzip(None)));
}

#[test]
fn headers_test_try_insert_extra_always_goes_to_extra() {
    let mut headers = RequestHeaders::default();
    headers
        .try_insert_extra(&make_header(b"content-type", b"text/plain"))
        .unwrap();
    assert_eq!(
        headers.extra.get("content-type"),
        Some(&"text/plain".to_string())
    );
    assert!(headers.content_type.is_none());
}

#[test]
fn headers_test_sendable_always_includes_content_encoding() {
    let sendable = ResponseHeaders::default().into_sendable();
    assert!(find_header(&sendable, b"content-encoding").is_some());
}

#[test]
fn headers_test_sendable_content_length() {
    let sendable = ResponseHeaders {
        content_length: Some(42),
        ..Default::default()
    }
    .into_sendable();
    assert_eq!(
        find_header(&sendable, b"content-length"),
        Some(b"42".as_ref())
    );
}

#[test]
fn headers_test_sendable_content_type_json() {
    let sendable = ResponseHeaders {
        content_type: Some(mime::APPLICATION_JSON),
        ..Default::default()
    }
    .into_sendable();
    let value = find_header(&sendable, b"content-type").expect("expected a content-type header");
    assert_eq!(value, mime::APPLICATION_JSON.to_string().as_bytes());
}

#[test]
fn headers_test_sendable_extra_header() {
    let mut extra = HeaderMap::new();
    extra.insert("x-foo".to_string(), "bar".to_string());
    let sendable = ResponseHeaders {
        extra,
        ..Default::default()
    }
    .into_sendable();
    assert_eq!(find_header(&sendable, b"x-foo"), Some(b"bar".as_ref()));
}

#[test]
fn headers_test_insert_content_type_invalid() {
    let mut headers = RequestHeaders::default();
    let result = headers.try_insert(&make_header(b"content-type", b"not/a/valid/mime"));
    assert!(matches!(result, Err(ParseHeaderError::Unexpected(_, _))));
}

#[test]
fn headers_test_insert_content_type_text_html() {
    let mut headers = RequestHeaders::default();
    headers
        .try_insert(&make_header(b"content-type", b"text/html; charset=utf-8"))
        .unwrap();
    assert_eq!(headers.content_type, Some(mime::TEXT_HTML_UTF_8));
}

#[test]
fn headers_test_insert_accept_encoding_multiple() {
    let mut headers = RequestHeaders::default();
    headers
        .try_insert(&make_header(b"accept-encoding", b"gzip, br"))
        .unwrap();
    assert_eq!(headers.accept_encoding.len(), 2);
}

#[test]
fn headers_test_insert_multiple_extra_headers() {
    let mut headers = RequestHeaders::default();
    headers
        .try_insert(&make_header(b"x-request-id", b"abc-123"))
        .unwrap();
    headers
        .try_insert(&make_header(b"x-trace-id", b"xyz-456"))
        .unwrap();
    assert_eq!(
        headers.extra.get("x-request-id"),
        Some(&"abc-123".to_string())
    );
    assert_eq!(
        headers.extra.get("x-trace-id"),
        Some(&"xyz-456".to_string())
    );
}

#[test]
fn headers_test_sendable_cache_control() {
    let cc = CacheControl {
        cachability: Some(Cachability::Public),
        max_age: Some(Duration::from_secs(3600).as_secs()),
        ..Default::default()
    };
    let sendable = ResponseHeaders {
        cache_control: Some(cc),
        ..Default::default()
    }
    .into_sendable();
    let value = find_header(&sendable, b"cache-control").expect("expected a cache-control header");
    let s = std::str::from_utf8(value).unwrap();
    assert!(s.contains("public"));
    assert!(s.contains("max-age=3600"));
}

#[test]
fn headers_test_sendable_omits_absent_optional_fields() {
    let sendable = ResponseHeaders::default().into_sendable();
    assert!(find_header(&sendable, b"cache-control").is_none());
    assert!(find_header(&sendable, b"content-length").is_none());
    assert!(find_header(&sendable, b"content-type").is_none());
    assert!(find_header(&sendable, b"encoding-type").is_none());
}

#[test]
fn headers_test_sendable_encoding_type() {
    let sendable = ResponseHeaders {
        encoding_type: Some("chunked".to_string()),
        ..Default::default()
    }
    .into_sendable();
    assert_eq!(
        find_header(&sendable, b"encoding-type"),
        Some(b"chunked".as_ref())
    );
}
#[test]
fn headers_try_to_owned_valid_ascii() {
    let result =
        RequestHeaders::try_to_owned(&make_header(b"content-type", b"application/json")).unwrap();
    assert_eq!(
        result,
        ("content-type".to_string(), "application/json".to_string())
    );
}

#[test]
fn headers_try_to_owned_invalid_utf8_in_name() {
    let result = RequestHeaders::try_to_owned(&make_header(&[0xFF, 0xFE], b"value"));
    assert!(matches!(result, Err(ParseHeaderError::BadKey(_, _))));
}

#[test]
fn headers_try_to_owned_invalid_utf8_in_value() {
    let result = RequestHeaders::try_to_owned(&make_header(b"content-type", &[0xFF, 0xFE]));
    assert!(matches!(result, Err(ParseHeaderError::BadValue(_, _))));
}

#[test]
fn headers_insert_authorization() {
    let mut headers = RequestHeaders::default();
    headers
        .try_insert(&make_header(b"authorization", b"Bearer token123"))
        .unwrap();
    assert_eq!(headers.authorization, Some("Bearer token123".to_string()));
}

#[test]
fn headers_insert_cache_control() {
    let mut headers = RequestHeaders::default();
    headers
        .try_insert(&make_header(b"cache-control", b"no-cache"))
        .unwrap();
    assert_eq!(headers.cache_control, Some("no-cache".to_string()));
}

#[test]
fn headers_insert_content_length_valid() {
    let mut headers = RequestHeaders::default();
    headers
        .try_insert(&make_header(b"content-length", b"1024"))
        .unwrap();
    assert_eq!(headers.content_length, Some(1024));
}

#[test]
fn headers_insert_content_length_non_numeric() {
    let mut headers = RequestHeaders::default();
    let result = headers.try_insert(&make_header(b"content-length", b"abc"));
    assert!(matches!(result, Err(ParseHeaderError::ExpectedInt(_, _))));
}

#[test]
fn headers_insert_content_type_json() {
    let mut headers = RequestHeaders::default();
    headers
        .try_insert(&make_header(b"content-type", b"application/json"))
        .unwrap();
    assert_eq!(headers.content_type, Some(mime::APPLICATION_JSON));
}

#[test]
fn headers_insert_encoding_type() {
    let mut headers = RequestHeaders::default();
    headers
        .try_insert(&make_header(b"encoding-type", b"chunked"))
        .unwrap();
    assert_eq!(headers.encoding_type, Some("chunked".to_string()));
}

#[test]
fn headers_insert_origin() {
    let mut headers = RequestHeaders::default();
    headers
        .try_insert(&make_header(b"origin", b"https://example.com"))
        .unwrap();
    assert_eq!(headers.origin, Some("https://example.com".to_string()));
}

#[test]
fn headers_insert_referer() {
    let mut headers = RequestHeaders::default();
    headers
        .try_insert(&make_header(b"referer", b"https://example.com/page"))
        .unwrap();
    assert_eq!(
        headers.referer,
        Some("https://example.com/page".to_string())
    );
}

#[test]
fn headers_insert_user_agent() {
    let mut headers = RequestHeaders::default();
    headers
        .try_insert(&make_header(b"user-agent", b"TestAgent/1.0"))
        .unwrap();
    assert_eq!(headers.user_agent, Some("TestAgent/1.0".to_string()));
}

#[test]
fn headers_insert_unknown_header_goes_to_extra() {
    let mut headers = RequestHeaders::default();
    headers
        .try_insert(&make_header(b"x-custom-header", b"custom-value"))
        .unwrap();
    assert_eq!(
        headers.extra.get("x-custom-header"),
        Some(&"custom-value".to_string())
    );
}

#[test]
fn headers_insert_accept_encoding_gzip() {
    let mut headers = RequestHeaders::default();
    headers
        .try_insert(&make_header(b"accept-encoding", b"gzip"))
        .unwrap();
    assert_eq!(headers.accept_encoding.len(), 1);
    assert!(matches!(headers.accept_encoding[0], Encoding::Gzip(None)));
}

#[test]
fn headers_try_insert_extra_always_goes_to_extra() {
    let mut headers = RequestHeaders::default();
    headers
        .try_insert_extra(&make_header(b"content-type", b"text/plain"))
        .unwrap();
    assert_eq!(
        headers.extra.get("content-type"),
        Some(&"text/plain".to_string())
    );
    assert!(headers.content_type.is_none());
}

#[test]
fn headers_sendable_always_includes_content_encoding() {
    let sendable = ResponseHeaders::default().into_sendable();
    assert!(find_header(&sendable, b"content-encoding").is_some());
}

#[test]
fn headers_sendable_content_length() {
    let sendable = ResponseHeaders {
        content_length: Some(42),
        ..Default::default()
    }
    .into_sendable();
    assert_eq!(
        find_header(&sendable, b"content-length"),
        Some(b"42".as_ref())
    );
}

#[test]
fn headers_sendable_content_type_json() {
    let sendable = ResponseHeaders {
        content_type: Some(mime::APPLICATION_JSON),
        ..Default::default()
    }
    .into_sendable();
    let value = find_header(&sendable, b"content-type").expect("expected a content-type header");
    assert_eq!(value, mime::APPLICATION_JSON.to_string().as_bytes());
}

#[test]
fn headers_sendable_extra_header() {
    let mut extra = HeaderMap::new();
    extra.insert("x-foo".to_string(), "bar".to_string());
    let sendable = ResponseHeaders {
        extra,
        ..Default::default()
    }
    .into_sendable();
    assert_eq!(find_header(&sendable, b"x-foo"), Some(b"bar".as_ref()));
}

#[test]
fn headers_insert_content_type_invalid() {
    let mut headers = RequestHeaders::default();
    let result = headers.try_insert(&make_header(b"content-type", b"not/a/valid/mime"));
    assert!(matches!(result, Err(ParseHeaderError::Unexpected(_, _))));
}

#[test]
fn headers_insert_content_type_text_html() {
    let mut headers = RequestHeaders::default();
    headers
        .try_insert(&make_header(b"content-type", b"text/html; charset=utf-8"))
        .unwrap();
    assert_eq!(headers.content_type, Some(mime::TEXT_HTML_UTF_8));
}

#[test]
fn headers_insert_accept_encoding_multiple() {
    let mut headers = RequestHeaders::default();
    headers
        .try_insert(&make_header(b"accept-encoding", b"gzip, br"))
        .unwrap();
    assert_eq!(headers.accept_encoding.len(), 2);
}

#[test]
fn headers_insert_multiple_extra_headers() {
    let mut headers = RequestHeaders::default();
    headers
        .try_insert(&make_header(b"x-request-id", b"abc-123"))
        .unwrap();
    headers
        .try_insert(&make_header(b"x-trace-id", b"xyz-456"))
        .unwrap();
    assert_eq!(
        headers.extra.get("x-request-id"),
        Some(&"abc-123".to_string())
    );
    assert_eq!(
        headers.extra.get("x-trace-id"),
        Some(&"xyz-456".to_string())
    );
}

#[test]
fn headers_sendable_cache_control() {
    let cc = CacheControl {
        cachability: Some(Cachability::Public),
        max_age: Some(Duration::from_secs(3600).as_secs()),
        ..Default::default()
    };
    let sendable = ResponseHeaders {
        cache_control: Some(cc),
        ..Default::default()
    }
    .into_sendable();
    let value = find_header(&sendable, b"cache-control").expect("expected a cache-control header");
    let s = std::str::from_utf8(value).unwrap();
    assert!(s.contains("public"));
    assert!(s.contains("max-age=3600"));
}

#[test]
fn headers_sendable_omits_absent_optional_fields() {
    let sendable = ResponseHeaders::default().into_sendable();
    assert!(find_header(&sendable, b"cache-control").is_none());
    assert!(find_header(&sendable, b"content-length").is_none());
    assert!(find_header(&sendable, b"content-type").is_none());
    assert!(find_header(&sendable, b"encoding-type").is_none());
}

#[test]
fn headers_sendable_encoding_type() {
    let sendable = ResponseHeaders {
        encoding_type: Some("chunked".to_string()),
        ..Default::default()
    }
    .into_sendable();
    assert_eq!(
        find_header(&sendable, b"encoding-type"),
        Some(b"chunked".as_ref())
    );
}

#[test]
fn headers_parse_header_error_unexpected_display() {
    let err = ParseHeaderError::Unexpected("Method".to_string(), "BOGUS".to_string());
    assert!(err.to_string().contains("BOGUS"));
}

#[test]
fn headers_parse_header_error_expected_int_display() {
    let inner: std::num::ParseIntError = "abc".parse::<u64>().unwrap_err();
    let err = ParseHeaderError::ExpectedInt("content-length".to_string(), inner);
    assert!(err.to_string().contains("content-length"));
}

#[test]
fn response_headers_with_cache_control_produces_header() {
    let cc = CacheControl {
        cachability: Some(Cachability::Public),
        max_age: Some(Duration::from_secs(3600).as_secs()),
        immutable: true,
        ..Default::default()
    };
    let sendable = ResponseHeaders {
        cache_control: Some(cc),
        ..Default::default()
    }
    .into_sendable();
    let value = sendable
        .iter()
        .find(|h| h.name() == b"cache-control")
        .map(|h| std::str::from_utf8(h.value()).unwrap())
        .expect("cache-control header should be present");
    assert!(value.contains("public"));
    assert!(value.contains("max-age=3600"));
    assert!(value.contains("immutable"));
}

#[test]
fn response_headers_without_cache_control_omits_header() {
    let sendable = ResponseHeaders::default().into_sendable();
    assert!(!sendable.iter().any(|h| h.name() == b"cache-control"));
}

#[test]
fn mod_test_parse_header_error_unexpected_display() {
    let err = ParseHeaderError::Unexpected("Method".to_string(), "BOGUS".to_string());
    assert!(err.to_string().contains("BOGUS"));
}

#[test]
fn mod_test_parse_header_error_expected_int_display() {
    let inner: std::num::ParseIntError = "abc".parse::<u64>().unwrap_err();
    let err = ParseHeaderError::ExpectedInt("content-length".to_string(), inner);
    assert!(err.to_string().contains("content-length"));
}

#[test]
fn request_headers_accept_encoding_stores_multiple() {
    let mut req_headers = RequestHeaders::default();
    req_headers
        .try_insert(&Header::new(b"accept-encoding", b"gzip br"))
        .unwrap();
    assert_eq!(req_headers.accept_encoding.len(), 2);
    assert!(matches!(
        req_headers.accept_encoding[0],
        Encoding::Gzip(None)
    ));
    assert!(matches!(req_headers.accept_encoding[1], Encoding::Br(None)));
}

#[test]
fn sendable_puts_fields_in_order() {
    let mut extra = HeaderMap::new();
    extra.insert("x-b".to_string(), "2".to_string());
    extra.insert("x-a".to_string(), "1".to_string());
    let sendable = ResponseHeaders {
        content_encoding: Encoding::Gzip(None),
        cache_control: Some(CacheControl { no_store: true, ..Default::default() }),
        content_length: Some(7),
        content_type: Some(mime::TEXT_PLAIN),
        encoding_type: Some("chunked".to_string()),
        extra,
    }
    .into_sendable();
    let pairs: Vec<(&[u8], &[u8])> = sendable.iter().map(|h| (h.name(), h.value())).collect();
    let expected: Vec<(&[u8], &[u8])> = vec![
        (b"content-encoding", b"gzip"),
        (b"cache-control", b"no-store"),
        (b"content-length", b"7"),
        (b"content-type", b"text/plain"),
        (b"encoding-type", b"chunked"),
        (b"x-b", b"2"),
        (b"x-a", b"1"),
    ];
    assert_eq!(pairs, expected);
}

#[test]
fn refused_value_leaves_headers_unchanged() {
    let mut headers = RequestHeaders::default();
    headers.try_insert(&make_header(b"content-length", b"12")).unwrap();
    let result = headers.try_insert(&make_header(b"content-length", b"-1"));
    assert!(matches!(result, Err(ParseHeaderError::ExpectedInt(_, _))));
    assert_eq!(headers.content_length, Some(12));
    let result = headers.try_insert(&make_header(b"accept-encoding", b"br;q=x"));
    assert!(matches!(result, Err(ParseHeaderError::ExpectedFloat(_, _))));
    assert!(headers.accept_encoding.is_empty());
}

#[test]
fn later_value_of_an_extra_header_replaces_the_earlier() {
    let mut headers = RequestHeaders::default();
    headers.try_insert(&make_header(b"x-id", b"1")).unwrap();
    headers.try_insert(&make_header(b"x-id", b"2")).unwrap();
    assert_eq!(headers.extra.len(), 1);
    assert_eq!(headers.extra.get("x-id"), Some(&"2".to_string()));
}

#[test]
fn content_length_accepts_a_plus_sign() {
    let mut headers = RequestHeaders::default();
    headers.try_insert(&make_header(b"content-length", b"+5")).unwrap();
    assert_eq!(headers.content_length, Some(5));
}

#[test]
fn unexpected_display_is_exact() {
    let err = ParseHeaderError::Unexpected("Method".to_string(), "BOGUS".to_string());
    assert_eq!(err.to_string(), "Unexpected Method: BOGUS");
}

#[test]
fn bad_key_keeps_the_name_bytes() {
    match RequestHeaders::try_to_owned(&make_header(&[0x61, 0xFF], b"v")) {
        Err(ParseHeaderError::BadKey(bytes, _)) => assert_eq!(bytes, vec![0x61, 0xFF]),
        other => panic!("expected BadKey, got {other:?}"),
    }
}

#[test]
fn error_texts_follow_the_error() {
    let bad_key = RequestHeaders::try_to_owned(&make_header(&[0xFF, 0xFE], b"v")).unwrap_err();
    assert!(bad_key
        .to_string()
        .starts_with("Failed to parse [255, 254] key as UTF-8: "));
    let bad_value = RequestHeaders::try_to_owned(&make_header(b"origin", &[0xFF])).unwrap_err();
    assert!(bad_value
        .to_string()
        .starts_with("Failed to parse origin value as UTF-8: "));
    let float = ParseHeaderError::ExpectedFloat("accept-encoding".to_string(), "x".to_string());
    assert_eq!(
        float.to_string(),
        "Failed to parse header accept-encoding float: invalid float literal"
    );
    let empty = ParseHeaderError::ExpectedFloat("accept-encoding".to_string(), String::new());
    assert_eq!(
        empty.to_string(),
        "Failed to parse header accept-encoding float: cannot parse float from empty string"
    );
}

#[test]
fn accept_list_is_read_piece_by_piece() {
    let ms = protest::http::headers::parse_mimes("text/html, application/json").unwrap();
    assert_eq!(ms, vec![mime::TEXT_HTML, mime::APPLICATION_JSON]);
    let err = protest::http::headers::parse_mimes("text/html, nope").unwrap_err();
    assert!(err.starts_with("Failed to parse MIME type 'nope': "));
}
