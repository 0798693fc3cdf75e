use protest::request::path::{PathComponent, PathMatcher};
use std::path::Path;

#[test]
fn test_path_matcher() {
    assert_eq!(
        PathMatcher::from("/foo/*/bar"),
        PathMatcher::from(vec![
            PathComponent::Static("foo"),
            PathComponent::Wildcard,
            PathComponent::Static("bar"),
        ]),
    );
}

#[test]
fn test_path_matcher_multi_token() {
    assert_eq!(
        PathMatcher::from(vec![
            PathComponent::Static("foo"),
            PathComponent::Wildcard,
            PathComponent::Static("bar"),
        ]),
        PathMatcher::from(vec![
            PathComponent::Static("foo"),
            PathComponent::Wildcard,
            PathComponent::Static("bar"),
        ]),
    );
}

#[test]
fn test_path_matcher_static_only() {
    assert_eq!(
        PathMatcher::from("/api/v1/users"),
        PathMatcher::from(vec![
            PathComponent::Static("api"),
            PathComponent::Static("v1"),
            PathComponent::Static("users"),
        ]),
    );
}

#[test]
fn test_path_matcher_wildcard_only() {
    assert_eq!(
        PathMatcher::from("/*"),
        PathMatcher::from(vec![PathComponent::Wildcard]),
    );
}

#[test]
fn test_path_matcher_multiple_wildcards() {
    assert_eq!(
        PathMatcher::from("/*/items/*"),
        PathMatcher::from(vec![
            PathComponent::Wildcard,
            PathComponent::Static("items"),
            PathComponent::Wildcard,
        ]),
    );
}

#[test]
fn test_path_matcher_trailing_comma() {
    assert_eq!(
        PathMatcher::from(vec![
            PathComponent::Static("a"),
            PathComponent::Static("b"),
            PathComponent::Static("c"),
        ]),
        PathMatcher::from(vec![
            PathComponent::Static("a"),
            PathComponent::Static("b"),
            PathComponent::Static("c"),
        ]),
    );
}

#[test]
fn test_from_slice() {
    let components = [PathComponent::Static("foo"), PathComponent::Wildcard];
    assert_eq!(
        PathMatcher::from(components.as_slice()),
        PathMatcher::from(vec![PathComponent::Static("foo"), PathComponent::Wildcard,]),
    );
}

#[test]
fn test_from_path() {
    let path = Path::new("/foo/bar");
    let matcher = PathMatcher::from_path(path.to_str().unwrap());
    // Path keeps the leading "/" as a component
    assert_eq!(
        matcher,
        PathMatcher::from(vec![
            PathComponent::Static("/"),
            PathComponent::Static("foo"),
            PathComponent::Static("bar"),
        ]),
    );
}

#[test]
fn test_empty_path() {
    let matcher = PathMatcher::from("");
    assert_eq!(matcher, PathMatcher::from(vec![]));
}

#[test]
fn test_param_from_str() {
    let matcher = PathMatcher::from("/users/:id/posts");
    assert_eq!(
        matcher,
        PathMatcher::from(vec![
            PathComponent::Static("users"),
            PathComponent::Param("id"),
            PathComponent::Static("posts"),
        ]),
    );
}

#[test]
fn test_param_and_wildcard_mixed() {
    assert_eq!(
        PathMatcher::from(vec![
            PathComponent::Static("api"),
            PathComponent::Param("version"),
            PathComponent::Wildcard,
            PathComponent::Static("detail"),
        ]),
        PathMatcher::from(vec![
            PathComponent::Static("api"),
            PathComponent::Param("version"),
            PathComponent::Wildcard,
            PathComponent::Static("detail"),
        ]),
    );
}

#[test]
fn test_param_at_start() {
    assert_eq!(
        PathMatcher::from(vec![PathComponent::Param("tenant"), PathComponent::Static("users")]),
        PathMatcher::from(vec![
            PathComponent::Param("tenant"),
            PathComponent::Static("users"),
        ]),
    );
}

#[test]
fn test_param_at_end() {
    assert_eq!(
        PathMatcher::from(vec![PathComponent::Static("users"), PathComponent::Param("id")]),
        PathMatcher::from(vec![
            PathComponent::Static("users"),
            PathComponent::Param("id"),
        ]),
    );
}

#[test]
fn test_root_path_matches() {
    let matcher = PathMatcher::from("/");
    assert!(matcher.matches("/"));
}

#[test]
fn test_root_path_does_not_match_subpath() {
    let matcher = PathMatcher::from("/");
    assert!(!matcher.matches("/foo"));
}

#[test]
fn test_absolute_path_with_param_matches() {
    let matcher = PathMatcher::from("/user/string/:name");
    assert!(matcher.matches("/user/string/john"));
    assert!(matcher.matches("/user/string/smith"));
    assert!(!matcher.matches("/user/string"));
    assert!(!matcher.matches("/user/string/john/extra"));
}

#[test]
fn pattern_matches_its_own_path() {
    for p in ["/a/b/c", "/x//y/", "shop/:item/*", "/"] {
        assert!(PathMatcher::from(p).matches(p), "{p}");
    }
}

#[test]
fn wildcard_and_param_match_any_segment_but_static_does_not() {
    let matcher = PathMatcher::from("/files/*/:name");
    assert!(matcher.matches("/files/docs/readme"));
    assert!(!matcher.matches("/images/docs/readme"));
    assert!(PathComponent::Param("x").matches_segment("anything"));
    assert!(PathComponent::Wildcard.matches_segment(""));
    assert!(!PathComponent::Static("a").matches_segment("b"));
}

#[test]
fn from_path_normalizes_dots_and_separators() {
    let matcher = PathMatcher::from_path("./a//./b/");
    assert_eq!(
        matcher,
        PathMatcher::from(vec![
            PathComponent::Static("."),
            PathComponent::Static("a"),
            PathComponent::Static("b"),
        ]),
    );
}
