use static_web_server::settings::{
    get_real_root, index_files_of, parse_octal_mode, value_parser_status_code, LogLevel,
    VirtualHosts,
};

#[test]
fn parses_bare_octal_digits() {
    assert_eq!(parse_octal_mode("660").unwrap(), 0o660);
}

#[test]
fn parses_leading_zero_and_0o_prefix() {
    assert_eq!(parse_octal_mode("0660").unwrap(), 0o660);
    assert_eq!(parse_octal_mode("0o660").unwrap(), 0o660);
    assert_eq!(parse_octal_mode("0O660").unwrap(), 0o660);
}

#[test]
fn rejects_non_octal_digits() {
    assert!(parse_octal_mode("789").is_err());
}

#[test]
fn rejects_empty_and_whitespace() {
    assert!(parse_octal_mode("").is_err());
    assert!(parse_octal_mode("   ").is_err());
}

#[test]
fn rejects_values_above_07777() {
    assert!(parse_octal_mode("10000").is_err());
}

#[test]
fn octal_mode_error_messages() {
    assert_eq!(
        parse_octal_mode("").unwrap_err(),
        "unix socket mode cannot be empty"
    );
    assert_eq!(
        parse_octal_mode("789").unwrap_err(),
        "invalid octal unix socket mode '789': invalid digit found in string"
    );
    assert_eq!(
        parse_octal_mode("0o").unwrap_err(),
        "invalid octal unix socket mode '0o': cannot parse integer from empty string"
    );
    assert_eq!(
        parse_octal_mode("77777777777777").unwrap_err(),
        "invalid octal unix socket mode '77777777777777': number too large to fit in target type"
    );
    assert_eq!(
        parse_octal_mode(" 10000 ").unwrap_err(),
        "unix socket mode ' 10000 ' exceeds maximum 07777 (12-bit permission mask)"
    );
    assert_eq!(parse_octal_mode(" +7777\n").unwrap(), 0o7777);
}

#[test]
fn status_code_values() {
    assert_eq!(value_parser_status_code("404"), Ok(404));
    assert_eq!(value_parser_status_code("100"), Ok(100));
    assert_eq!(value_parser_status_code("999"), Ok(999));
    assert_eq!(
        value_parser_status_code("99"),
        Err("invalid status code".to_string())
    );
    assert_eq!(
        value_parser_status_code("1000"),
        Err("invalid status code".to_string())
    );
    assert_eq!(
        value_parser_status_code("abc"),
        Err("invalid digit found in string".to_string())
    );
    assert_eq!(
        value_parser_status_code("70000"),
        Err("number too large to fit in target type".to_string())
    );
    assert_eq!(
        value_parser_status_code(""),
        Err("cannot parse integer from empty string".to_string())
    );
}

#[test]
fn log_level_names() {
    assert_eq!(LogLevel::Error.name(), "error");
    assert_eq!(LogLevel::Warn.name(), "warn");
    assert_eq!(LogLevel::Info.name(), "info");
    assert_eq!(LogLevel::Debug.name(), "debug");
    assert_eq!(LogLevel::Trace.name(), "trace");
}

#[test]
fn index_files_are_a_trimmed_list() {
    assert_eq!(index_files_of("index.html, index.htm ,default.html"), vec!["index.html", "index.htm", "default.html"]);
    assert_eq!(index_files_of(""), vec![""]);
}

#[test]
fn real_root_follows_the_request_host() {
    let hosts = vec![
        VirtualHosts { host: "a.example".to_string(), root: "/srv/a".to_string() },
        VirtualHosts { host: "b.example".to_string(), root: "/srv/b".to_string() },
    ];
    assert_eq!(get_real_root(Some(&hosts), Some("b.example")).map(String::as_str), Some("/srv/b"));
    assert_eq!(get_real_root(Some(&hosts), Some("c.example")), None);
    assert_eq!(get_real_root(None, Some("a.example")), None);
}

#[test]
fn octal_modes_round_trip() {
    for m in [0u32, 7, 8, 0o644, 0o660, 0o755, 0o1777, 0o7777] {
        assert_eq!(parse_octal_mode(&format!("{m:o}")).unwrap(), m);
        assert_eq!(parse_octal_mode(&format!(" 0o{m:o} ")).unwrap(), m);
    }
}
