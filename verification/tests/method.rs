use protest::http::method::Method;
use std::str::FromStr;

const ALL: [Method; 9] = [
    Method::GET,
    Method::POST,
    Method::PUT,
    Method::DELETE,
    Method::PATCH,
    Method::OPTIONS,
    Method::HEAD,
    Method::CONNECT,
    Method::TRACE,
];

#[test]
fn every_method_reads_back_from_its_name() {
    for m in ALL {
        assert_eq!(Method::parse(m.as_str()), Ok(m));
        assert_eq!(Method::from_str(&m.to_string()), Ok(m));
        assert_eq!(Method::try_from(m.as_str()), Ok(m));
        assert_eq!(m.as_bytes(), m.as_str().as_bytes());
    }
}

#[test]
fn names_are_upper_case_and_exact() {
    assert_eq!(Method::GET.as_str(), "GET");
    assert_eq!(Method::OPTIONS.to_string(), "OPTIONS");
    assert!(Method::parse("get").is_err());
    assert!(Method::parse(" GET").is_err());
    assert!(Method::parse("").is_err());
    assert_eq!(
        Method::parse("PUSH").unwrap_err().to_string(),
        "Matching variant not found"
    );
}
