use static_web_server::http_ext::{append_vary_accept_encoding, request_host, Method, MethodExt};

#[test]
fn method_get_is_allowed() {
    assert!(Method::Get.is_allowed());
    assert!(Method::Get.is_get());
    assert!(!Method::Get.is_head());
    assert!(!Method::Get.is_options());
}

#[test]
fn method_head_is_allowed() {
    assert!(Method::Head.is_allowed());
    assert!(Method::Head.is_head());
    assert!(!Method::Head.is_get());
    assert!(!Method::Head.is_options());
}

#[test]
fn method_options_is_allowed() {
    assert!(Method::Options.is_allowed());
    assert!(Method::Options.is_options());
    assert!(!Method::Options.is_get());
    assert!(!Method::Options.is_head());
}

#[test]
fn method_post_is_not_allowed() {
    assert!(!Method::Post.is_allowed());
    assert!(!Method::Post.is_get());
    assert!(!Method::Post.is_head());
    assert!(!Method::Post.is_options());
}

#[test]
fn method_put_delete_patch_are_not_allowed() {
    for method in [Method::Put, Method::Delete, Method::Patch, Method::Extension("QUERY".to_string())] {
        assert!(!method.is_allowed(), "{method:?} should not be allowed");
    }
}

#[test]
fn vary_added_when_absent() {
    assert_eq!(append_vary_accept_encoding(None), Some("accept-encoding".to_string()));
}

#[test]
fn vary_not_duplicated_when_already_present() {
    assert_eq!(append_vary_accept_encoding(Some("accept-encoding")), None);
}

#[test]
fn vary_appended_to_existing_value() {
    assert_eq!(
        append_vary_accept_encoding(Some("origin")),
        Some("origin, accept-encoding".to_string())
    );
}

#[test]
fn vary_not_duplicated_when_mixed_with_others() {
    assert_eq!(append_vary_accept_encoding(Some("origin, accept-encoding")), None);
}

#[test]
fn vary_of_an_empty_value_is_accept_encoding() {
    assert_eq!(append_vary_accept_encoding(Some("")), Some("accept-encoding".to_string()));
}

#[test]
fn request_host_prefers_the_uri_authority_and_strips_the_port() {
    assert_eq!(request_host(Some("a.example"), Some("b.example")), Some("a.example".to_string()));
    assert_eq!(request_host(None, Some("example.com:8080")), Some("example.com".to_string()));
    assert_eq!(request_host(None, Some("example.com")), Some("example.com".to_string()));
    assert_eq!(request_host(None, Some("bad host")), None);
    assert_eq!(request_host(None, None), None);
}
