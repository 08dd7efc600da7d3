use file_host::route::{route_request, RouteDecision};

#[test]
fn path_without_trailing_slash_redirects() {
    match route_request("docs") {
        RouteDecision::Redirect(loc) => assert_eq!(loc, "/docs/"),
        RouteDecision::ServeIndex => panic!("expected a redirect"),
    }
}

#[test]
fn path_with_trailing_slash_serves_index() {
    assert!(matches!(route_request("docs/"), RouteDecision::ServeIndex));
}

#[test]
fn empty_path_serves_index() {
    assert!(matches!(route_request(""), RouteDecision::ServeIndex));
}

#[test]
fn nested_path_redirects_with_both_slashes() {
    match route_request("a/b") {
        RouteDecision::Redirect(loc) => assert_eq!(loc, "/a/b/"),
        RouteDecision::ServeIndex => panic!("expected a redirect"),
    }
}
