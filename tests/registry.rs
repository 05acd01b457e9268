use evo::registry::{make_key, normalize_path, MockRegistry};

#[test]
fn method_is_uppercased_and_path_prefixed() {
    let mut reg = MockRegistry::new();
    let key = reg.add_mock_api("users", "get", "[]", 200, "json");
    assert_eq!(key, "GET /users");
    let m = reg.get("GET /users").unwrap();
    assert_eq!(m.method, "GET");
    assert_eq!(m.path, "/users");
    assert_eq!(m.id, "GET /users");
    assert_eq!(m.response_type, "json");
}

#[test]
fn update_same_key_keeps_size() {
    let mut reg = MockRegistry::new();
    let key = reg.add_mock_api("/a", "GET", "one", 200, "raw");
    reg.add_mock_api("/b", "GET", "two", 200, "raw");
    assert_eq!(reg.get_mock_apis().len(), 2);
    reg.update_mock_api(&key, "/a", "GET", "changed", 201, "raw");
    assert_eq!(reg.get_mock_apis().len(), 2);
    let m = reg.get("GET /a").unwrap();
    assert_eq!(m.response_body, "changed");
    assert_eq!(m.status_code, 201);
}

#[test]
fn re_adding_a_key_replaces() {
    let mut reg = MockRegistry::new();
    reg.add_mock_api("/a", "GET", "one", 200, "raw");
    reg.add_mock_api("a", "get", "two", 200, "raw");
    let all = reg.get_mock_apis();
    assert_eq!(all.len(), 1);
    assert_eq!(all[0].response_body, "two");
}

#[test]
fn update_to_new_key_moves_definition() {
    let mut reg = MockRegistry::new();
    reg.add_mock_api("/a", "GET", "one", 200, "raw");
    reg.update_mock_api("GET /a", "/b", "post", "moved", 200, "raw");
    assert!(reg.get("GET /a").is_none());
    assert_eq!(reg.get("POST /b").unwrap().response_body, "moved");
    assert_eq!(reg.get_mock_apis().len(), 1);
}

#[test]
fn remove_drops_only_that_key() {
    let mut reg = MockRegistry::new();
    reg.add_mock_api("/a", "GET", "one", 200, "raw");
    reg.add_mock_api("/b", "GET", "two", 200, "raw");
    reg.remove_mock_api("GET /a");
    reg.remove_mock_api("GET /missing");
    assert!(reg.get("GET /a").is_none());
    assert!(reg.get("GET /b").is_some());
    assert_eq!(reg.get_mock_apis().len(), 1);
}

#[test]
fn key_and_path_helpers() {
    assert_eq!(make_key("ANY", "/x"), "ANY /x");
    assert_eq!(normalize_path(""), "/");
    assert_eq!(normalize_path("/x"), "/x");
}
