use protest::http::header_map::HeaderMap;
use protest::http::headers::{Header, ResponseHeaders};
use protest::http::status::Status;
use protest::response::Response;

#[test]
fn response_new_sets_status_and_body() {
    let resp: Response<String> = Response::new(Status::OK, "hello".to_string());
    assert_eq!(resp.status, Status::OK);
    assert_eq!(resp.body, "hello");
}

#[test]
fn response_new_with_headers_stores_headers() {
    let headers = ResponseHeaders {
        content_length: Some(99),
        encoding_type: Some("chunked".to_string()),
        ..Default::default()
    };
    let resp: Response<Vec<u8>> = Response::new_with_headers(Status::OK, headers, vec![1, 2, 3]);
    assert_eq!(resp.status, Status::OK);
    assert_eq!(resp.headers.content_length, Some(99));
    assert_eq!(resp.headers.encoding_type, Some("chunked".to_string()));
    assert_eq!(resp.body, vec![1u8, 2, 3]);
}

#[test]
fn route_not_found_has_404_status() {
    assert_eq!(Response::<Vec<u8>>::route_not_found().status, Status::NotFound);
}

#[test]
fn route_not_found_has_default_headers() {
    let resp = Response::<Vec<u8>>::route_not_found();
    assert!(resp.headers.content_type.is_none());
    assert!(resp.headers.content_length.is_none());
}

#[test]
fn fallback_has_500_status() {
    assert_eq!(
        Response::<Vec<u8>>::fallback().status,
        Status::InternalServerError
    );
}

#[test]
fn fallback_has_default_headers() {
    let resp = Response::<Vec<u8>>::fallback();
    assert!(resp.headers.content_type.is_none());
    assert!(resp.headers.content_length.is_none());
}

fn pairs(hs: &[Header]) -> Vec<(Vec<u8>, Vec<u8>)> {
    hs.iter().map(|h| (h.name().to_vec(), h.value().to_vec())).collect()
}

#[test]
fn header_list_starts_with_status_and_ends_with_default_content_type() {
    let resp = Response::new(Status::Created, ());
    let list = resp.header_list(&mime::APPLICATION_JSON);
    assert_eq!(
        pairs(&list),
        vec![
            (b":status".to_vec(), b"201".to_vec()),
            (b"content-encoding".to_vec(), b"identity".to_vec()),
            (b"content-type".to_vec(), b"application/json".to_vec()),
        ]
    );
}

#[test]
fn header_list_keeps_an_explicit_content_type() {
    let mut extra = HeaderMap::new();
    extra.insert("x-one".to_string(), "1".to_string());
    let headers = ResponseHeaders {
        content_type: Some(mime::TEXT_HTML),
        extra,
        ..Default::default()
    };
    let resp = Response::new_with_headers(Status::NotFound, headers, ());
    let list = resp.header_list(&mime::APPLICATION_JSON);
    assert_eq!(
        pairs(&list),
        vec![
            (b":status".to_vec(), b"404".to_vec()),
            (b"content-encoding".to_vec(), b"identity".to_vec()),
            (b"content-type".to_vec(), b"text/html".to_vec()),
            (b"x-one".to_vec(), b"1".to_vec()),
        ]
    );
}

#[test]
fn not_found_and_fallback_bodies() {
    assert_eq!(Response::<Vec<u8>>::route_not_found().body, b"Route not found".to_vec());
    assert_eq!(Response::<Vec<u8>>::fallback().body, b"Internal server error".to_vec());
}
