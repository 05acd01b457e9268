use evo::log::{RequestLogBuffer, LOG_CAPACITY};
use evo::model::{RequestLog, ServerConfig};
use evo::proxy::{forwards_header, wildcard_target};
use evo::{is_valid_status};

fn entry(n: u64) -> RequestLog {
    RequestLog {
        id: format!("id-{}", n),
        method: "GET".to_string(),
        path: format!("/p/{}", n),
        status_code: 200,
        duration_ms: n,
        timestamp: n,
        request_body: None,
        response_body: Some("ok".to_string()),
    }
}

#[test]
fn log_buffer_keeps_hundred_newest() {
    let mut log = RequestLogBuffer::new();
    for n in 1..=101u64 {
        log.push(entry(n));
    }
    let e = log.entries();
    assert_eq!(e.len(), 100);
    assert_eq!(LOG_CAPACITY, 100);
    assert_eq!(e[0].id, "id-101");
    assert_eq!(e[99].id, "id-2");
    assert!(e.iter().all(|x| x.id != "id-1"));
}

#[test]
fn record_gives_fresh_ids() {
    let mut log = RequestLogBuffer::new();
    let a = log.record("GET".to_string(), "/a".to_string(), 200, 3, 10, Some(String::new()), None);
    let b = log.record("POST".to_string(), "/b".to_string(), 404, 4, 11, None, None);
    assert_eq!(a.len(), 36);
    assert_ne!(a, b);
    assert_eq!(log.entries()[0].path, "/b");
    assert_eq!(log.entries()[1].id, a);
}

#[test]
fn wildcard_target_trims_slashes() {
    assert_eq!(wildcard_target("http://x:1//", "//a/b"), "http://x:1/a/b");
    assert_eq!(wildcard_target("http://x:1/", ""), "http://x:1");
    assert_eq!(wildcard_target("http://x:1", "/"), "http://x:1");
}

#[test]
fn host_header_not_forwarded() {
    assert!(!forwards_header("host"));
    assert!(forwards_header("accept"));
}

#[test]
fn status_validity() {
    assert!(is_valid_status(100));
    assert!(is_valid_status(599));
    assert!(!is_valid_status(99));
}

#[test]
fn server_config_default() {
    let c = ServerConfig::default();
    assert_eq!(c.port, 3000);
    assert_eq!(c.host, "127.0.0.1");
    assert!(c.running);
}

#[test]
fn unreachable_upstream_is_bad_gateway() {
    let r = evo::proxy::proxy_failure("connection refused");
    assert_eq!(r.status, 502);
    assert_eq!(r.body, "Proxy Error: connection refused");
}
