use static_web_server::https_redirect::{redirect_to_https, RedirectOpts};

fn make_opts(hostname: &str, port: u16, allowed: &[&str]) -> RedirectOpts {
    RedirectOpts {
        https_hostname: hostname.to_owned(),
        https_port: port,
        allowed_hosts: allowed.iter().map(|s| s.to_string()).collect(),
    }
}

#[test]
fn redirects_allowed_host_to_https() {
    let opts = make_opts("example.com", 443, &["example.com"]);
    let location = redirect_to_https(Some("example.com"), "/foo/bar", &opts).unwrap();
    assert_eq!(location, "https://example.com:443/foo/bar");
}

#[test]
fn rejects_disallowed_host() {
    let opts = make_opts("example.com", 443, &["example.com"]);
    let err = redirect_to_https(Some("attacker.com"), "/", &opts).unwrap_err();
    assert_eq!(err, 400);
}

#[test]
fn rejects_request_without_host_header() {
    let opts = make_opts("example.com", 443, &["example.com"]);
    let err = redirect_to_https(None, "/foo", &opts).unwrap_err();
    assert_eq!(err, 400);
}

#[test]
fn includes_path_and_query_in_redirect() {
    let opts = make_opts("example.com", 8443, &["example.com"]);
    let location = redirect_to_https(Some("example.com"), "/page?key=val", &opts).unwrap();
    assert_eq!(location, "https://example.com:8443/page?key=val");
}

#[test]
fn redirects_to_custom_https_hostname() {
    let opts = make_opts("secure.example.com", 443, &["www.example.com"]);
    let location = redirect_to_https(Some("www.example.com"), "/", &opts).unwrap();
    assert_eq!(location, "https://secure.example.com:443/");
}

#[test]
fn host_header_port_is_ignored_and_bad_locations_are_refused() {
    let opts = make_opts("example.com", 443, &["example.com"]);
    assert_eq!(
        redirect_to_https(Some("example.com:80"), "/", &opts),
        Ok("https://example.com:443/".to_string())
    );
    assert_eq!(redirect_to_https(Some("example.com"), "/a\nb", &opts), Err(400));
}
