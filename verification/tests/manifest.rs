use static_web_server::manifest::{has_toml_extension, Header, LogLevel};

#[test]
fn toml_extension_is_required() {
    assert!(has_toml_extension("config.toml"));
    assert!(has_toml_extension("/etc/sws/sws.toml"));
    assert!(has_toml_extension("/etc/sws/a.b.toml/"));
    assert!(!has_toml_extension("config.yaml"));
    assert!(!has_toml_extension("config"));
    assert!(!has_toml_extension(".toml"));
    assert!(!has_toml_extension("config."));
    assert!(!has_toml_extension("dir/sws.toml/.."));
    assert!(!has_toml_extension(""));
}

#[test]
fn manifest_values() {
    let h = Header { key: "X-A".to_string(), value: "1".to_string() };
    assert_eq!(h.key, "X-A");
    assert_eq!(LogLevel::Warn, LogLevel::Warn);
}
