use static_web_server::fallback_page::{fallback_response, post_process as fallback_post_process};
use static_web_server::health::pre_process as health_pre_process;
use static_web_server::http_ext::Method;
use static_web_server::maintenance_mode::{
    get_response as maintenance_response, pre_process as maintenance_pre_process, DEFAULT_STATUS,
};
use static_web_server::security_headers::{append_headers, post_process as security_post_process};

#[test]
fn test_health_disabled() {
    assert!(health_pre_process(false, "/health", &Method::Get).is_none());
}

#[test]
fn health_test_wrong_uri() {
    assert!(health_pre_process(true, "/health2", &Method::Get).is_none());
}

#[test]
fn health_test_wrong_method() {
    assert!(health_pre_process(true, "/health", &Method::Post).is_none());
}

#[test]
fn health_test_correct_request() {
    assert_eq!(health_pre_process(true, "/health", &Method::Get), Some(true));
    assert_eq!(health_pre_process(true, "/health", &Method::Head), Some(false));
}

#[test]
fn test_maintenance_disabled() {
    assert!(maintenance_pre_process(false, &Method::Get, DEFAULT_STATUS, None).is_none());
}

#[test]
fn test_maintenance_default() {
    let resp = maintenance_pre_process(true, &Method::Get, DEFAULT_STATUS, None).unwrap();
    assert_eq!(resp.status, 503);
    assert_eq!(
        resp.body,
        "<html><head><title>503 Service Unavailable</title></head><body><center><h1>The server is in maintenance mode.</h1></center></body></html>"
    );
}

#[test]
fn test_maintenance_custom_status() {
    let resp = maintenance_pre_process(true, &Method::Get, 418, None).unwrap();
    assert_eq!(resp.status, 418);
}

#[test]
fn maintenance_page_file_is_trimmed() {
    let resp = maintenance_response(&Method::Head, 503, Some(Some(b"  <p>later</p>\n".to_vec())));
    assert_eq!(resp.body, "<p>later</p>");
    assert!(!resp.send_body);
    assert_eq!(resp.content_length, 12);
    let resp = maintenance_response(&Method::Get, 599, None);
    assert!(resp.body.contains("<title>599 <unknown status code></title>"));
}

#[test]
fn test_success_code() {
    assert!(fallback_post_process(&Method::Get, 200, "\u{1}\u{2}\u{3}").is_none());
}

#[test]
fn test_wrong_error() {
    assert!(fallback_post_process(&Method::Get, 500, "\u{1}\u{2}\u{3}").is_none());
}

#[test]
fn fallback_page_test_wrong_method() {
    assert!(fallback_post_process(&Method::Post, 404, "\u{1}\u{2}\u{3}").is_none());
}

#[test]
fn test_unconfigured() {
    assert!(fallback_post_process(&Method::Get, 404, "").is_none());
}

#[test]
fn test_fallback() {
    let resp = fallback_post_process(&Method::Get, 404, "\u{1}\u{2}\u{3}").unwrap();
    assert_eq!(resp.status, 200);
    assert_eq!(resp.content_length, 3);
    assert_eq!(fallback_response("<p>x</p>").body, "<p>x</p>");
}

fn value_of<'a>(headers: &'a [(String, String)], name: &str) -> Option<&'a str> {
    headers.iter().find(|(n, _)| n == name).map(|(_, v)| v.as_str())
}

#[test]
fn append_headers_sets_all_four_headers() {
    let mut headers = vec![("x-frame-options".to_string(), "SAMEORIGIN".to_string())];
    append_headers(&mut headers);
    assert_eq!(headers.len(), 5);
    assert_eq!(
        value_of(&headers, "strict-transport-security"),
        Some("max-age=63072000; includeSubDomains; preload")
    );
    assert_eq!(value_of(&headers, "x-frame-options"), Some("DENY"));
    assert_eq!(value_of(&headers, "x-content-type-options"), Some("nosniff"));
    assert_eq!(value_of(&headers, "content-security-policy"), Some("frame-ancestors 'self'"));
    assert_eq!(value_of(&headers, "referrer-policy"), Some("strict-origin-when-cross-origin"));
}

#[test]
fn security_headers_only_when_enabled() {
    let mut headers = vec![("content-type".to_string(), "text/html".to_string())];
    security_post_process(false, &mut headers);
    assert_eq!(headers.len(), 1);
    security_post_process(true, &mut headers);
    assert_eq!(headers.len(), 6);
}

#[test]
fn security_headers_twice_equal_once() {
    let mut once = vec![
        ("content-type".to_string(), "text/html".to_string()),
        ("referrer-policy".to_string(), "no-referrer".to_string()),
    ];
    append_headers(&mut once);
    let mut twice = once.clone();
    append_headers(&mut twice);
    assert_eq!(once, twice);
    assert_eq!(once[0], ("content-type".to_string(), "text/html".to_string()));
}

fn secured() -> Vec<(String, String)> {
    let mut headers = Vec::new();
    append_headers(&mut headers);
    headers
}

#[test]
fn append_headers_sets_hsts() {
    assert_eq!(
        value_of(&secured(), "strict-transport-security"),
        Some("max-age=63072000; includeSubDomains; preload")
    );
}

#[test]
fn append_headers_sets_x_frame_options() {
    assert_eq!(value_of(&secured(), "x-frame-options"), Some("DENY"));
}

#[test]
fn append_headers_sets_x_content_type_options() {
    assert_eq!(value_of(&secured(), "x-content-type-options"), Some("nosniff"));
}

#[test]
fn append_headers_sets_csp() {
    assert_eq!(value_of(&secured(), "content-security-policy"), Some("frame-ancestors 'self'"));
}

#[test]
fn append_headers_sets_referrer_policy() {
    assert_eq!(value_of(&secured(), "referrer-policy"), Some("strict-origin-when-cross-origin"));
}
