use evo::matcher::{match_request, RouteMatch};
use evo::registry::MockRegistry;
use evo::reply::{plan_request, BodyKind, Plan, Reply};

fn reply_of(p: Plan) -> Reply {
    match p {
        Plan::Respond(r) => r,
        _ => panic!("expected a direct reply"),
    }
}

fn url_of(p: Plan) -> String {
    match p {
        Plan::Forward { url } => url,
        _ => panic!("expected a forward"),
    }
}

#[test]
fn exact_route_returns_configured_status_and_body() {
    let mut reg = MockRegistry::new();
    reg.add_mock_api("/hello", "GET", "hi there", 201, "raw");
    let r = reply_of(plan_request(&reg, "GET", "/hello"));
    assert_eq!(r.status, 201);
    assert_eq!(r.kind, BodyKind::Plain);
    assert_eq!(r.body, "hi there");
}

#[test]
fn other_method_without_any_is_not_found() {
    let mut reg = MockRegistry::new();
    reg.add_mock_api("/hello", "GET", "hi", 200, "raw");
    let r = reply_of(plan_request(&reg, "POST", "/hello"));
    assert_eq!(r.status, 404);
    assert_eq!(r.body, "Not Found: POST /hello");
}

#[test]
fn any_route_matches_every_method() {
    let mut reg = MockRegistry::new();
    reg.add_mock_api("/ping", "any", "pong", 200, "raw");
    for m in ["GET", "POST", "DELETE"] {
        let r = reply_of(plan_request(&reg, m, "/ping"));
        assert_eq!(r.status, 200);
        assert_eq!(r.body, "pong");
    }
}

#[test]
fn exact_method_wins_over_any() {
    let mut reg = MockRegistry::new();
    reg.add_mock_api("/ping", "ANY", "any", 200, "raw");
    reg.add_mock_api("/ping", "GET", "get", 202, "raw");
    let r = reply_of(plan_request(&reg, "GET", "/ping"));
    assert_eq!(r.body, "get");
    assert_eq!(r.status, 202);
    let r = reply_of(plan_request(&reg, "PUT", "/ping"));
    assert_eq!(r.body, "any");
}

#[test]
fn wildcard_proxy_forwards_suffix() {
    let mut reg = MockRegistry::new();
    reg.add_mock_api("/api/*", "ANY", "http://upstream:9000", 200, "proxy");
    let url = url_of(plan_request(&reg, "GET", "/api/users/5"));
    assert_eq!(url, "http://upstream:9000/users/5");
}

#[test]
fn wildcard_proxy_with_empty_rest_uses_base() {
    let mut reg = MockRegistry::new();
    reg.add_mock_api("/api/*", "GET", "http://upstream:9000/", 200, "proxy");
    let url = url_of(plan_request(&reg, "GET", "/api/"));
    assert_eq!(url, "http://upstream:9000");
    let r = reply_of(plan_request(&reg, "POST", "/api/x"));
    assert_eq!(r.status, 404);
}

#[test]
fn wildcard_needs_proxy_type() {
    let mut reg = MockRegistry::new();
    reg.add_mock_api("/api/*", "ANY", "http://upstream:9000", 200, "raw");
    match match_request(&reg, "GET", "/api/users") {
        RouteMatch::Unmatched => {}
        _ => panic!("a raw route does not match by prefix"),
    }
}

#[test]
fn exact_proxy_forwards_to_whole_target() {
    let mut reg = MockRegistry::new();
    reg.add_mock_api("/users", "GET", "http://localhost:8080/api/v1/users", 200, "proxy");
    let url = url_of(plan_request(&reg, "GET", "/users"));
    assert_eq!(url, "http://localhost:8080/api/v1/users");
}

#[test]
fn invalid_json_body_returned_verbatim() {
    let mut reg = MockRegistry::new();
    reg.add_mock_api("/broken", "GET", "{not valid json", 200, "json");
    let r = reply_of(plan_request(&reg, "GET", "/broken"));
    assert_eq!(r.status, 200);
    assert_eq!(r.kind, BodyKind::Plain);
    assert_eq!(r.body, "{not valid json");
}

#[test]
fn valid_json_body_is_compacted() {
    let mut reg = MockRegistry::new();
    reg.add_mock_api("/ok", "GET", "{ \"a\" : 1 }", 203, "json");
    let r = reply_of(plan_request(&reg, "GET", "/ok"));
    assert_eq!(r.status, 203);
    assert_eq!(r.kind, BodyKind::Json);
    assert_eq!(r.body, "{\"a\":1}");
}

#[test]
fn invalid_status_falls_back_to_ok() {
    let mut reg = MockRegistry::new();
    reg.add_mock_api("/page", "GET", "<p>x</p>", 42, "html");
    let r = reply_of(plan_request(&reg, "GET", "/page"));
    assert_eq!(r.status, 200);
    assert_eq!(r.kind, BodyKind::Html);
    assert_eq!(r.body, "<p>x</p>");
}

#[test]
fn script_route_plans_wrapped_source() {
    let mut reg = MockRegistry::new();
    reg.add_mock_api("/js", "GET", "return 1;", 201, "js");
    match plan_request(&reg, "GET", "/js") {
        Plan::Script { status, source } => {
            assert_eq!(status, 201);
            assert_eq!(source, "(function(request) {\nreturn 1;\n})(request);\n");
        }
        _ => panic!("expected a script"),
    }
}
