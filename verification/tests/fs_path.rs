use static_web_server::fs_path::sanitize_path;

#[test]
fn test_traversal_is_sanitized() {
    assert_eq!(sanitize_path("./public", "/a/../b"), Ok("./public/a/b".to_string()));
    assert_eq!(sanitize_path("./public", "/../../etc/passwd"), Ok("./public/etc/passwd".to_string()));
    assert_eq!(sanitize_path("/srv/", "/./x//y/"), Ok("/srv/x/y".to_string()));
}

#[test]
fn test_percent_encoded_traversal_is_sanitized() {
    assert_eq!(sanitize_path("./public", "/%2e%2e/%2e%2e/etc"), Ok("./public/etc".to_string()));
    assert_eq!(sanitize_path("./public", "/my%20file.txt"), Ok("./public/my file.txt".to_string()));
    assert_eq!(sanitize_path("./public", "/%ff"), Err(422));
}

#[test]
fn percent_signs_without_two_hex_digits_are_kept() {
    assert_eq!(sanitize_path("/srv", "/100%25/a%zz/b%4"), Ok("/srv/100%/a%zz/b%4".to_string()));
    assert_eq!(sanitize_path("/srv", "/%C3%A9t%c3%a9"), Ok("/srv/été".to_string()));
}
