use static_web_server::http_ext::Method;
use static_web_server::metrics::{
    host_label, method_label, metrics_answer, request_labels, status_class,
};
use static_web_server::settings::VirtualHosts;

fn make_vhost(host: &str) -> VirtualHosts {
    VirtualHosts { host: host.to_string(), root: "/var/www".to_string() }
}

#[test]
fn test_status_class() {
    assert_eq!(status_class(100), "1xx");
    assert_eq!(status_class(200), "2xx");
    assert_eq!(status_class(301), "3xx");
    assert_eq!(status_class(404), "4xx");
    assert_eq!(status_class(500), "5xx");
    assert_eq!(status_class(999), "5xx");
}

#[test]
fn test_host_label_collapses_when_no_vhosts() {
    assert_eq!(host_label(Some("poc-000001.invalid"), None), "other");
    assert_eq!(host_label(Some("poc-000001.invalid"), Some(&[])), "other");
}

#[test]
fn test_host_label_allows_configured_vhost() {
    let vhosts = [make_vhost("example.com")];
    assert_eq!(host_label(Some("example.com"), Some(&vhosts)), "example.com");
    assert_eq!(host_label(Some("poc-000002.invalid"), Some(&vhosts)), "other");
    assert_eq!(host_label(None, Some(&vhosts)), "other");
}

#[test]
fn test_method_label_allows_supported_methods() {
    assert_eq!(method_label(&Method::Get), "GET");
    assert_eq!(method_label(&Method::Head), "HEAD");
    assert_eq!(method_label(&Method::Options), "OPTIONS");
}

#[test]
fn test_method_label_collapses_unsupported_methods() {
    assert_eq!(method_label(&Method::Post), "other");
    assert_eq!(method_label(&Method::Extension("FOO".to_string())), "other");
}

#[test]
fn test_record_request_skips_metrics_path() {
    assert!(request_labels("/metrics", &Method::Get, 200, None, None).is_none());
    assert_eq!(
        request_labels("/index.html", &Method::Get, 200, Some("example.com"), None),
        Some(("GET", "2xx", "other".to_string()))
    );
}

#[test]
fn test_metrics_endpoint_answers() {
    assert_eq!(metrics_answer(false, "/metrics", &Method::Get), None);
    assert_eq!(metrics_answer(true, "/metrics2", &Method::Get), None);
    assert_eq!(metrics_answer(true, "/metrics", &Method::Post), None);
    assert_eq!(metrics_answer(true, "/metrics", &Method::Get), Some(true));
    assert_eq!(metrics_answer(true, "/metrics", &Method::Head), Some(false));
}

#[test]
fn test_metrics_disabled() {
    assert!(metrics_answer(false, "/metrics", &Method::Get).is_none());
}

#[test]
fn metrics_test_wrong_uri() {
    assert!(metrics_answer(true, "/metrics2", &Method::Get).is_none());
}

#[test]
fn metrics_test_wrong_method() {
    assert!(metrics_answer(true, "/metrics", &Method::Post).is_none());
}

#[test]
fn metrics_test_correct_request() {
    assert!(metrics_answer(true, "/metrics", &Method::Get).is_some());
}

#[test]
fn test_record_request() {
    assert_eq!(
        request_labels("/index.html", &Method::Get, 200, Some("example.com"), None),
        Some(("GET", "2xx", "other".to_string()))
    );
    assert_eq!(
        request_labels("/missing", &Method::Head, 404, None, None),
        Some(("HEAD", "4xx", "other".to_string()))
    );
}

#[test]
fn test_record_request_unknown_hosts_share_other_label() {
    let vhosts = [make_vhost("example.com")];
    let a = request_labels("/", &Method::Get, 200, Some("a.invalid"), Some(&vhosts));
    let b = request_labels("/", &Method::Get, 200, Some("b.invalid"), Some(&vhosts));
    assert_eq!(a, b);
    assert_eq!(a.unwrap().2, "other");
}

#[test]
fn test_record_request_keeps_allowed_vhost_label() {
    let vhosts = [make_vhost("example.com")];
    let labels = request_labels("/", &Method::Get, 200, Some("example.com"), Some(&vhosts)).unwrap();
    assert_eq!(labels.2, "example.com");
}

#[test]
fn test_record_request_unknown_methods_share_other_label() {
    let a = request_labels("/", &Method::Extension("FOO".to_string()), 405, None, None).unwrap();
    let b = request_labels("/", &Method::Post, 405, None, None).unwrap();
    assert_eq!(a.0, "other");
    assert_eq!(a, b);
}
