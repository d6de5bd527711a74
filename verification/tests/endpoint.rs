use diag_server::rfc3339::timestamp_is_rfc3339;
use diag_server::{configure_test_routes, handle_test, test_endpoint, Method, RouteTable};

fn configured_table() -> RouteTable {
    let mut table = RouteTable::new();
    configure_test_routes(&mut table);
    table
}

#[test]
fn get_test_returns_success() {
    let table = configured_table();
    let r = table.dispatch(Method::Get, "/test");
    assert_eq!(r.status, 200);
    assert_eq!(r.content_type, "application/json");
    let v: serde_json::Value = serde_json::from_str(&r.body).unwrap();
    assert_eq!(v.get("message").unwrap().as_str().unwrap(), "Test endpoint is working!");
    assert_eq!(v.get("status").unwrap().as_str().unwrap(), "success");
    let ts = v.get("timestamp").unwrap().as_str().unwrap();
    assert!(timestamp_is_rfc3339(ts));
    assert_eq!(v.as_object().unwrap().len(), 3);
}

#[test]
fn post_test_is_not_success() {
    let table = configured_table();
    let r = table.dispatch(Method::Post, "/test");
    assert_eq!(r.status, 405);
    assert_ne!(r.status, 200);
    assert!(r.body.is_empty());
}

#[test]
fn other_methods_are_rejected_on_test_path() {
    let table = configured_table();
    for m in [Method::Put, Method::Delete, Method::Head, Method::Options, Method::Patch] {
        let r = table.dispatch(m, "/test");
        assert_eq!(r.status, 405);
        assert!(r.body.is_empty());
    }
}

#[test]
fn unknown_path_is_not_found() {
    let table = configured_table();
    let r = table.dispatch(Method::Get, "/unknown");
    assert_eq!(r.status, 404);
    assert!(r.body.is_empty());
}

#[test]
fn empty_table_finds_nothing() {
    let table = RouteTable::new();
    let r = table.dispatch(Method::Get, "/test");
    assert_eq!(r.status, 404);
}

#[test]
fn handle_test_builds_exact_body() {
    let r = handle_test(String::from("2026-01-01T00:00:00+00:00"));
    assert_eq!(r.status, 200);
    assert_eq!(r.content_type, "application/json");
    assert_eq!(
        r.body,
        "{\"message\":\"Test endpoint is working!\",\"status\":\"success\",\
         \"timestamp\":\"2026-01-01T00:00:00+00:00\"}"
    );
}

#[test]
fn test_endpoint_timestamp_is_current() {
    let before = chrono::Utc::now().timestamp_millis();
    let r = test_endpoint();
    let after = chrono::Utc::now().timestamp_millis();
    let v: serde_json::Value = serde_json::from_str(&r.body).unwrap();
    let ts = v.get("timestamp").unwrap().as_str().unwrap();
    let parsed = chrono::DateTime::parse_from_rfc3339(ts).unwrap();
    let t = parsed.timestamp_millis();
    assert!(before - 5000 <= t && t <= after + 5000);
}

#[test]
fn repeated_requests_are_identical_up_to_timestamp() {
    let r1 = test_endpoint();
    let r2 = test_endpoint();
    assert_eq!(r1.status, r2.status);
    assert_eq!(r1.content_type, r2.content_type);
    let v1: serde_json::Value = serde_json::from_str(&r1.body).unwrap();
    let v2: serde_json::Value = serde_json::from_str(&r2.body).unwrap();
    assert_eq!(v1.get("message"), v2.get("message"));
    assert_eq!(v1.get("status"), v2.get("status"));
    let t1 = chrono::DateTime::parse_from_rfc3339(v1.get("timestamp").unwrap().as_str().unwrap())
        .unwrap();
    let t2 = chrono::DateTime::parse_from_rfc3339(v2.get("timestamp").unwrap().as_str().unwrap())
        .unwrap();
    assert!(t1 <= t2);
}

#[test]
fn configure_appends_single_route() {
    let table = configured_table();
    assert_eq!(table.routes.len(), 1);
    assert_eq!(table.routes[0].method, Method::Get);
    assert_eq!(table.routes[0].path, "/test");
}
