use static_web_server::error_page::{error_response, page_to_load, PageCache};
use static_web_server::http_ext::Method;
use static_web_server::path_ext::resolve_page_path;
use static_web_server::response::last_modified_value;

#[test]
fn page_to_load_names_the_uncached_page() {
    let cache = PageCache::new();
    assert_eq!(page_to_load(404, "/www/404.html", "/www/50x.html", &cache).as_deref(), Some("/www/404.html"));
    assert_eq!(page_to_load(503, "/www/404.html", "/www/50x.html", &cache).as_deref(), Some("/www/50x.html"));
    assert_eq!(page_to_load(403, "/www/404.html", "/www/50x.html", &cache), None);
    assert_eq!(page_to_load(200, "/www/404.html", "/www/50x.html", &cache), None);
    assert_eq!(page_to_load(404, "", "/www/50x.html", &cache), None);
}

#[test]
fn a_page_read_on_a_miss_is_served_and_kept() {
    let mut cache = PageCache::new();
    let path = page_to_load(404, "/www/404.html", "/www/50x.html", &cache).unwrap();
    cache.cache_page(&path, Some(Some(b"  <h1>Gone fishing</h1>\n".to_vec())));
    assert_eq!(page_to_load(404, "/www/404.html", "/www/50x.html", &cache), None);
    let resp = error_response(&Method::Get, 404, "/www/404.html", "/www/50x.html", &cache);
    assert_eq!(resp.status, 404);
    assert_eq!(resp.body, "<h1>Gone fishing</h1>");
}

#[test]
fn a_missing_page_file_is_looked_for_again() {
    let mut cache = PageCache::new();
    cache.cache_page("/www/50x.html", None);
    assert_eq!(page_to_load(500, "/www/404.html", "/www/50x.html", &cache).as_deref(), Some("/www/50x.html"));
}

#[test]
fn relative_page_paths_resolve_under_the_root() {
    assert_eq!(resolve_page_path("/srv/public", "./404.html"), "/srv/public/./404.html");
    assert_eq!(resolve_page_path("/srv/public", "404.html"), "/srv/public/404.html");
    assert_eq!(resolve_page_path("/srv/public/", "errors/50x.html"), "/srv/public/errors/50x.html");
    assert_eq!(resolve_page_path("/srv/public", "/etc/404.html"), "/etc/404.html");
    assert_eq!(resolve_page_path("./public", "./public/404.html"), "./public/404.html");
    assert_eq!(resolve_page_path("./public", "public/404.html"), "./public/public/404.html");
    assert_eq!(resolve_page_path("public", "public//404.html"), "public//404.html");
    assert_eq!(resolve_page_path("", "404.html"), "404.html");
}

#[test]
fn last_modified_is_an_http_date_except_at_the_epoch() {
    assert_eq!(last_modified_value(None), None);
    assert_eq!(last_modified_value(Some(0)), None);
    assert_eq!(
        last_modified_value(Some(784_111_777 * 1_000_000_000)).as_deref(),
        Some("Sun, 06 Nov 1994 08:49:37 GMT")
    );
    assert_eq!(
        last_modified_value(Some(784_111_777 * 1_000_000_000 + 999_999_999)).as_deref(),
        Some("Sun, 06 Nov 1994 08:49:37 GMT")
    );
    assert_eq!(last_modified_value(Some(1)).as_deref(), Some("Thu, 01 Jan 1970 00:00:00 GMT"));
}
