use static_web_server::error_page::{
    build_html_response, error_response, page_kind, PageCache, PageKind, TEXT_HTML_UTF_8,
};
use static_web_server::http_ext::Method;

#[test]
fn cache_page_skips_missing_file() {
    let path = "/this/does/not/exist/sws-test-404.html";
    let mut cache = PageCache::new();
    cache.cache_page(path, None);
    assert!(cache.cached_page(path).is_none());
}

#[test]
fn cache_page_skips_empty_path() {
    let mut cache = PageCache::new();
    cache.cache_page("", Some(Some(b"<h1>x</h1>".to_vec())));
    assert!(cache.cached_page("").is_none());
}

#[test]
fn cache_page_round_trip() {
    let path = "/tmp/sws-error-page-cache.html";
    let mut cache = PageCache::new();
    cache.cache_page(path, Some(Some(b"<html>cached</html>".to_vec())));
    let cached = cache.cached_page(path).expect("page must be cached");
    assert!(cached.contains("cached"));
    // A second load of the same path replaces the body.
    cache.cache_page(path, Some(Some(b" <p>new</p>\n".to_vec())));
    assert_eq!(cache.cached_page(path).unwrap(), "<p>new</p>");
    // A file that exists but cannot be read caches an empty body.
    cache.cache_page("/tmp/other.html", Some(None));
    assert_eq!(cache.cached_page("/tmp/other.html").unwrap(), "");
}

#[test]
fn build_html_response_get_includes_body() {
    let resp = build_html_response("hello".to_string(), 200, Some(&Method::Get));
    assert_eq!(resp.status, 200);
    assert_eq!(TEXT_HTML_UTF_8, "text/html; charset=utf-8");
    assert!(resp.send_body);
    assert_eq!(resp.content_length, 5);
}

#[test]
fn build_html_response_head_omits_body_but_keeps_length() {
    let content = "hello";
    let resp = build_html_response(content.to_string(), 404, Some(&Method::Head));
    assert_eq!(resp.status, 404);
    assert!(!resp.send_body);
    assert_eq!(resp.content_length, content.len() as u64);
}

#[test]
fn build_html_response_none_method_always_includes_body() {
    let resp = build_html_response("body content".to_string(), 500, None);
    assert_eq!(resp.status, 500);
    assert!(resp.send_body);
    assert_eq!(resp.content_length, "body content".len() as u64);
}

#[test]
fn error_response_404_no_custom_page() {
    let cache = PageCache::new();
    let resp = error_response(&Method::Get, 404, "/nonexistent/404.html", "/nonexistent/50x.html", &cache);
    assert_eq!(resp.status, 404);
    assert!(resp.body.contains("<title>404 Not Found</title>"));
    assert!(resp.body.contains("<h1>404 Not Found</h1>"));
}

#[test]
fn error_response_404_with_custom_page() {
    let mut cache = PageCache::new();
    cache.cache_page("/www/404.html", Some(Some(b"<h1>Not Found</h1>".to_vec())));
    let resp = error_response(&Method::Get, 404, "/www/404.html", "/nonexistent/50x.html", &cache);
    assert_eq!(resp.status, 404);
    assert_eq!(resp.body, "<h1>Not Found</h1>");
}

#[test]
fn error_response_500_no_custom_page() {
    let cache = PageCache::new();
    let resp = error_response(&Method::Get, 500, "/nonexistent/404.html", "/nonexistent/50x.html", &cache);
    assert_eq!(resp.status, 500);
    assert!(resp.body.contains("500 Internal Server Error"));
}

#[test]
fn error_response_head_omits_body() {
    let cache = PageCache::new();
    let resp = error_response(&Method::Head, 404, "/nonexistent/404.html", "/nonexistent/50x.html", &cache);
    assert_eq!(resp.status, 404);
    assert!(!resp.send_body);
    assert!(resp.content_length > 0, "Content-Length should reflect body size even for HEAD");
    assert_eq!(resp.content_length, resp.body.len() as u64);
}

#[test]
fn error_response_uses_the_50x_page_only_for_server_errors() {
    let mut cache = PageCache::new();
    cache.cache_page("/www/50x.html", Some(Some(b"down".to_vec())));
    let resp = error_response(&Method::Get, 503, "/www/404.html", "/www/50x.html", &cache);
    assert_eq!(resp.body, "down");
    let resp = error_response(&Method::Get, 403, "/www/404.html", "/www/50x.html", &cache);
    assert!(resp.body.contains("<title>403 Forbidden</title>"));
    let resp = error_response(&Method::Get, 599, "/www/404.html", "/www/50x.html", &cache);
    assert!(resp.body.contains("<title>599 </title>"));
}

#[test]
fn error_response_default_page_is_exact() {
    let cache = PageCache::new();
    let resp = error_response(&Method::Get, 404, "", "", &cache);
    assert_eq!(
        resp.body,
        "<!DOCTYPE html><html><head><meta charset=\"utf-8\"><meta name=\"viewport\" content=\"width=device-width,minimum-scale=1,initial-scale=1\"><title>404 Not Found</title><style>html { color-scheme: light dark; } body { font-family: sans-serif; text-align: center; }</style></head><body><h1>404 Not Found</h1></body></html>"
    );
}

#[test]
fn page_kinds_of_status_codes() {
    assert_eq!(page_kind(404), PageKind::NotFound);
    assert_eq!(page_kind(400), PageKind::ClientError);
    assert_eq!(page_kind(417), PageKind::ClientError);
    assert_eq!(page_kind(418), PageKind::Other);
    assert_eq!(page_kind(500), PageKind::ServerError);
    assert_eq!(page_kind(508), PageKind::ServerError);
    assert_eq!(page_kind(509), PageKind::Other);
}
