use static_web_server::url_patterns::{fill_placeholders, source_regex_of};

#[test]
fn glob_sources_become_capturing_regexes() {
    assert_eq!(source_regex_of("/source1").unwrap(), "^/source1$");
    assert_eq!(source_regex_of("**/*.php").unwrap(), r"^(/?|.*/).*\.php$");
    assert_eq!(source_regex_of("/{a,b}/x").unwrap(), "^/(a|b)/x$");
    assert!(source_regex_of("/a/[").is_none());
}

#[test]
fn placeholders_take_the_captures() {
    let caps = vec![Some("/a/b".to_string()), None, Some("b".to_string())];
    assert_eq!(fill_placeholders(&caps, "/x/$1-$2/$0"), Some("/x/-b//a/b".to_string()));
    assert_eq!(fill_placeholders(&caps, "/plain"), Some("/plain".to_string()));
}
