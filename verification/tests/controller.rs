use protest::http::headers::Header;
use protest::http::method::Method;
use protest::server::controller::{
    ConnectionEvent, HttpStreamManager, Step, MAX_IDLE_CONNECTION, MAX_IDLE_STREAM,
};
use protest::types::error::{ProtestError, RequestError};

fn h(name: &str, value: &str) -> Header {
    Header::new(name.as_bytes(), value.as_bytes())
}

fn request_headers(path: &str) -> Vec<Header> {
    vec![
        h(":method", "POST"),
        h(":path", path),
        h(":scheme", "https"),
        h(":authority", "localhost"),
    ]
}

fn open(id: u64, read_fin: bool) -> ConnectionEvent<&'static str, u32> {
    ConnectionEvent::Headers {
        stream_id: id,
        headers: request_headers("/echo"),
        read_fin,
        body: "body",
        sender: 7,
    }
}

#[test]
fn headers_that_end_the_stream_dispatch_at_once() {
    let mut m: HttpStreamManager<&str, u32> = HttpStreamManager::new(0);
    match m.handle_connection_event(open(4, true), 10).unwrap() {
        Step::Dispatch(s) => {
            assert_eq!(s.stream_id, 4);
            assert_eq!(s.request.method, Method::POST);
            assert_eq!(s.request.path, "/echo");
            assert!(!s.request.body_assosiated);
            assert_eq!(s.sender, 7);
            assert_eq!(s.idle_at, 10 + MAX_IDLE_STREAM);
        }
        Step::Continue => panic!("expected a dispatch"),
    }
    assert!(!m.contains(4));
    assert!(m.is_dispatched(4));
}

#[test]
fn body_with_fin_dispatches_and_trailing_bytes_are_ignored() {
    let mut m: HttpStreamManager<&str, u32> = HttpStreamManager::new(0);
    assert!(matches!(m.handle_connection_event(open(8, false), 0), Ok(Step::Continue)));
    assert!(m.contains(8));
    assert!(matches!(
        m.handle_connection_event(ConnectionEvent::BodyBytes { stream_id: 8, fin: false }, 5),
        Ok(Step::Continue)
    ));
    match m.handle_connection_event(ConnectionEvent::BodyBytes { stream_id: 8, fin: true }, 9) {
        Ok(Step::Dispatch(s)) => {
            assert_eq!(s.stream_id, 8);
            assert_eq!(s.idle_at, 9 + MAX_IDLE_STREAM);
            assert!(s.request.body_assosiated);
        }
        _ => panic!("expected a dispatch"),
    }
    // a trailing FIN after dispatch is ignored
    assert!(matches!(
        m.handle_connection_event(ConnectionEvent::BodyBytes { stream_id: 8, fin: true }, 10),
        Ok(Step::Continue)
    ));
}

#[test]
fn bytes_for_an_unknown_stream_are_an_error() {
    let mut m: HttpStreamManager<&str, u32> = HttpStreamManager::new(0);
    match m.handle_connection_event(ConnectionEvent::BodyBytes { stream_id: 1, fin: false }, 0) {
        Err(ProtestError::Generic(t)) => assert_eq!(t, "Request was consumed in error"),
        _ => panic!("expected an error"),
    }
    assert!(matches!(
        m.handle_connection_event(ConnectionEvent::MoreHeaders { stream_id: 1, read_fin: true }, 0),
        Err(ProtestError::Generic(_))
    ));
}

#[test]
fn more_headers_with_fin_dispatch() {
    let mut m: HttpStreamManager<&str, u32> = HttpStreamManager::new(0);
    m.handle_connection_event(open(12, false), 0).unwrap();
    assert!(matches!(
        m.handle_connection_event(ConnectionEvent::MoreHeaders { stream_id: 12, read_fin: false }, 1),
        Ok(Step::Continue)
    ));
    assert!(matches!(
        m.handle_connection_event(ConnectionEvent::MoreHeaders { stream_id: 12, read_fin: true }, 2),
        Ok(Step::Dispatch(s)) if s.stream_id == 12
    ));
}

#[test]
fn bad_headers_end_with_a_request_error_and_change_nothing() {
    let mut m: HttpStreamManager<&str, u32> = HttpStreamManager::new(0);
    let ev = ConnectionEvent::Headers {
        stream_id: 0,
        headers: vec![h(":method", "GET")],
        read_fin: true,
        body: "",
        sender: 0,
    };
    assert!(matches!(
        m.handle_connection_event(ev, 0),
        Err(ProtestError::Request(RequestError::BuildFromHttp(_)))
    ));
    assert!(!m.contains(0));
    assert!(!m.is_dispatched(0));
}

#[test]
fn closed_stream_is_forgotten() {
    let mut m: HttpStreamManager<&str, u32> = HttpStreamManager::new(0);
    m.handle_connection_event(open(3, true), 0).unwrap();
    m.handle_connection_event(open(5, false), 0).unwrap();
    m.handle_connection_event(ConnectionEvent::StreamClosed { stream_id: 3 }, 0).unwrap();
    m.handle_connection_event(ConnectionEvent::StreamClosed { stream_id: 5 }, 0).unwrap();
    assert!(!m.is_dispatched(3));
    assert!(!m.contains(5));
    assert!(matches!(m.handle_connection_event(ConnectionEvent::Settings, 0), Ok(Step::Continue)));
    assert!(matches!(m.handle_connection_event(ConnectionEvent::Other, 0), Ok(Step::Continue)));
}

#[test]
fn tick_drops_only_streams_past_their_idle_time() {
    let mut m: HttpStreamManager<&str, u32> = HttpStreamManager::new(0);
    m.handle_connection_event(open(1, false), 0).unwrap();
    m.handle_connection_event(open(2, false), 30_000).unwrap();
    assert!(m.monitor_connection_tick(MAX_IDLE_STREAM));
    assert!(m.contains(1) && m.contains(2));
    assert!(m.monitor_connection_tick(MAX_IDLE_STREAM + 1));
    assert!(!m.contains(1));
    assert!(m.contains(2));
    // activity pushes the idle time
    assert_eq!(m.get(2, 80_000).map(|s| s.idle_at), Some(80_000 + MAX_IDLE_STREAM));
    assert!(m.get(77, 80_000).is_none());
    assert!(m.monitor_connection_tick(100_000));
    assert!(m.contains(2));
}

#[test]
fn connection_ends_after_idling_too_long() {
    let mut m: HttpStreamManager<&str, u32> = HttpStreamManager::new(1_000);
    assert!(!m.is_connection_idle_too_long(1_000 + MAX_IDLE_CONNECTION));
    assert!(m.monitor_connection_tick(1_000 + MAX_IDLE_CONNECTION));
    assert!(m.is_connection_idle_too_long(1_001 + MAX_IDLE_CONNECTION));
    assert!(!m.monitor_connection_tick(1_001 + MAX_IDLE_CONNECTION));
    // a clock that went back counts as no time
    assert!(!m.is_connection_idle_too_long(0));
}

#[test]
fn dispatched_hands_over_once() {
    let mut m: HttpStreamManager<&str, u32> = HttpStreamManager::new(0);
    m.add(9, protest::request::Request::try_from_incoming(&request_headers("/"), false, "b").unwrap(), 1, 0);
    assert!(m.dispatched(9).is_some());
    assert!(m.dispatched(9).is_none());
    assert!(m.is_dispatched(9));
    m.clear(9);
    assert!(!m.is_dispatched(9));
}
