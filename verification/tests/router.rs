use protest::http::method::Method;
use protest::server::router::{is_match, same_path, Router, TypedRoute};

#[test]
fn routes_match_on_method_and_path_components() {
    assert!(is_match(Method::GET, "/a/b", Method::GET, "/a//b/"));
    assert!(!is_match(Method::GET, "/a/b", Method::POST, "/a/b"));
    assert!(!is_match(Method::GET, "/a/b", Method::GET, "a/b"));
    assert!(same_path("./x", "./x/."));
    assert!(!same_path("/x", "/y"));
}

#[test]
fn find_route_returns_the_first_match() {
    let mut r: Router<u8> = Router::new();
    assert!(r.is_empty());
    r.add_route(TypedRoute::new(Method::GET, "/ping", 1));
    r.add_route(TypedRoute::new(Method::POST, "/ping", 2));
    let mut other: Router<u8> = Router::default();
    other.add_route(TypedRoute::new(Method::GET, "/ping/", 3));
    other.add_route(TypedRoute::new(Method::GET, "/pong", 4));
    r.nest(other);
    assert_eq!(r.len(), 4);
    assert_eq!(r.find_route(Method::GET, "/ping").map(|x| x.handler), Some(1));
    assert_eq!(r.find_route(Method::POST, "/ping").map(|x| x.handler), Some(2));
    assert_eq!(r.find_route(Method::GET, "/pong").map(|x| x.handler), Some(4));
    assert!(r.find_route(Method::PUT, "/ping").is_none());
}

use protest::http::headers::ResponseHeaders;
use protest::http::status::Status;
use protest::request::Request;
use protest::response::Response;

type SyncHandler = fn(Request<String>) -> Response<String>;

#[test]
fn add_route_increases_router_len() {
    let mut router: Router<SyncHandler> = Router::new();
    router.add_route(TypedRoute::new(Method::GET, "/", |x: Request<String>| Response {
        status: Status::OK,
        headers: ResponseHeaders::default(),
        body: x.body,
    }));
    assert_eq!(router.len(), 1);
}

#[test]
fn nest_routes_merges_router_into_server() {
    let mut router: Router<SyncHandler> = Router::new();
    let mut extra: Router<SyncHandler> = Router::new();
    extra.add_route(TypedRoute::new(Method::POST, "/submit", |x: Request<String>| Response {
        status: Status::Created,
        headers: ResponseHeaders::default(),
        body: x.body,
    }));
    extra.add_route(TypedRoute::new(Method::DELETE, "/item", |x: Request<String>| Response {
        status: Status::OK,
        headers: ResponseHeaders::default(),
        body: x.body,
    }));
    router.nest(extra);
    assert_eq!(router.len(), 2);
    let route = router.find_route(Method::POST, "/submit").unwrap();
    let request = Request::try_from_incoming(
        &vec![
            protest::http::headers::Header::new(b":path", b"/submit"),
            protest::http::headers::Header::new(b":scheme", b"https"),
            protest::http::headers::Header::new(b":authority", b"a"),
        ],
        false,
        "payload".to_string(),
    )
    .unwrap();
    let response = (route.handler)(request);
    assert_eq!(response.status, Status::Created);
    assert_eq!(response.body, "payload");
}
