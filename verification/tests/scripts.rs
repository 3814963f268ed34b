use static_web_server::scripts::{script_uri_path, Scripts};

#[test]
fn first_matching_script_is_chosen() {
    let scripts = Some(vec![
        Scripts { source: "/api/**".to_string() },
        Scripts { source: "**/*.php".to_string() },
        Scripts { source: "/api/*.php".to_string() },
    ]);
    assert_eq!(script_uri_path("/api/v1/x.php", &scripts).unwrap().source, "/api/**");
    assert_eq!(script_uri_path("/blog/index.php", &scripts).unwrap().source, "**/*.php");
    assert!(script_uri_path("/index.html", &scripts).is_none());
    assert!(script_uri_path("/index.php", &None).is_none());
}
