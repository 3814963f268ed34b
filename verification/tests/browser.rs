use static_web_server::browser::{browser_url, loopback_if_unspecified, IpAddress};

#[test]
fn ipv4_unspecified_address_uses_ipv4_loopback() {
    assert_eq!(loopback_if_unspecified(IpAddress::V4(0, 0, 0, 0)), IpAddress::V4(127, 0, 0, 1));
    assert_eq!(browser_url("http", "127.0.0.1:8080", None), "http://127.0.0.1:8080/");
}

#[test]
fn ipv6_unspecified_address_uses_ipv6_loopback() {
    assert_eq!(
        loopback_if_unspecified(IpAddress::V6(0, 0, 0, 0, 0, 0, 0, 0)),
        IpAddress::V6(0, 0, 0, 0, 0, 0, 0, 1)
    );
    assert_eq!(browser_url("http", "[::1]:8080", None), "http://[::1]:8080/");
}

#[test]
fn https_url_preserves_bound_port() {
    assert_eq!(loopback_if_unspecified(IpAddress::V4(127, 0, 0, 1)), IpAddress::V4(127, 0, 0, 1));
    assert_eq!(browser_url("https", "127.0.0.1:8443", None), "https://127.0.0.1:8443/");
}

#[test]
fn configured_path_is_appended_to_url() {
    assert_eq!(browser_url("http", "127.0.0.1:8080", Some("/docs")), "http://127.0.0.1:8080/docs");
}

#[test]
fn configured_path_without_leading_slash_is_normalized() {
    assert_eq!(browser_url("http", "127.0.0.1:8080", Some("docs")), "http://127.0.0.1:8080/docs");
}
