use static_web_server::redirects::{
    get_redirection, pre_process, redirect_entry, replace_placeholders, PlaceholderError,
    RedirectOutcome, Redirects, SourceError, MAX_URI_LEN_FOR_REGEX,
};
use static_web_server::settings::RedirectsKind;

fn get_redirects() -> Vec<Redirects> {
    vec![
        Redirects {
            host: None,
            source: r"/source1$".to_string(),
            destination: "/destination1".into(),
            kind: 302,
        },
        Redirects {
            host: Some("example.com".into()),
            source: r"/source2$".to_string(),
            destination: "/destination2".into(),
            kind: 301,
        },
        Redirects {
            host: Some("example.info".into()),
            source: r"/(prefix/)?(source3)/(.*)".to_string(),
            destination: "/destination3/$2/$3".into(),
            kind: 301,
        },
        Redirects {
            host: None,
            source: r"/source4/(.*)".to_string(),
            destination: "/destination4?p=$1".into(),
            kind: 302,
        },
    ]
}

/// Splits a request target into its path and query, and runs the redirects
/// with the given `Host` header (none when empty).
fn run(redirects: Option<&[Redirects]>, host: &str, uri: &str) -> Option<(u16, String)> {
    let (path, query) = match uri.find('?') {
        Some(i) => (&uri[..i], Some(&uri[i + 1..])),
        None => (uri, None),
    };
    let host = if host.is_empty() { None } else { Some(host) };
    match pre_process(redirects, path, None, None, host, query) {
        Some(RedirectOutcome::Redirect { status, location }) => Some((status, location)),
        _ => None,
    }
}

#[test]
fn test_no_redirects() {
    assert!(pre_process(None, "/", None, None, None, None).is_none());
    assert!(run(None, "", "/").is_none());
}

#[test]
fn redirects_test_no_match() {
    let r = get_redirects();
    assert!(run(Some(&r), "example.com", "/source2/whatever").is_none());
    assert!(run(Some(&r), "", "/source2").is_none());
}

#[test]
fn redirects_test_match() {
    let r = get_redirects();
    assert_eq!(run(Some(&r), "", "/source1"), Some((302, "/destination1".into())));
    assert_eq!(run(Some(&r), "example.com", "/source2"), Some((301, "/destination2".into())));
    assert_eq!(
        run(Some(&r), "example.info", "/source3/whatever"),
        Some((301, "/destination3/source3/whatever".into()))
    );
    assert_eq!(run(Some(&r), "", "/source4/whatever"), Some((302, "/destination4?p=whatever".into())));
}

#[test]
fn test_query() {
    let r = get_redirects();
    assert_eq!(
        run(Some(&r), "", "/source1?q=query-string"),
        Some((302, "/destination1?q=query-string".into()))
    );
    assert_eq!(
        run(Some(&r), "example.com", "/source2?q=query-string"),
        Some((301, "/destination2?q=query-string".into()))
    );
    assert_eq!(
        run(Some(&r), "example.info", "/source3/whatever?q=query-string"),
        Some((301, "/destination3/source3/whatever?q=query-string".into()))
    );
    assert_eq!(
        run(Some(&r), "", "/source4/whatever?q=query-string"),
        Some((302, "/destination4?p=whatever&q=query-string".into()))
    );
}

#[test]
fn max_uri_len_for_regex_is_at_least_8kib() {
    assert!(MAX_URI_LEN_FOR_REGEX >= 8 * 1024);
}

#[test]
fn overlong_paths_are_not_matched() {
    let r = get_redirects();
    let long = format!("/source4/{}", "a".repeat(MAX_URI_LEN_FOR_REGEX));
    assert!(run(Some(&r), "", &long).is_none());
}

#[test]
fn uri_host_and_port_are_checked_against_entry_hosts() {
    let r = vec![Redirects {
        host: Some("example.com:8080".into()),
        source: r"^/a$".to_string(),
        destination: "/b".into(),
        kind: 301,
    }];
    assert_eq!(
        pre_process(Some(&r), "/a", Some("example.com"), Some(8080), None, None),
        Some(RedirectOutcome::Redirect { status: 301, location: "/b".into() })
    );
    assert!(pre_process(Some(&r), "/a", Some("example.com"), None, None, None).is_none());
    assert_eq!(get_redirection("example.com:8080", "/a", Some(&r)).unwrap().destination, "/b");
}

#[test]
fn invalid_locations_are_server_errors() {
    let r = vec![Redirects {
        host: None,
        source: r"^/(.*)$".to_string(),
        destination: "/x/$1".into(),
        kind: 302,
    }];
    assert_eq!(
        pre_process(Some(&r), "/a\u{7f}b", None, None, None, None),
        Some(RedirectOutcome::ServerError)
    );
}

#[test]
fn prop_replace_placeholders_no_match_returns_err() {
    let re = r"^/(.*)/(.*)/(.*)/(.*)/(.*)$";
    assert_eq!(
        replace_placeholders("no-leading-slash-abc", re, "/$1"),
        Err(PlaceholderError::NoMatch)
    );
}

#[test]
fn prop_replace_placeholders_substitutes_all_indices() {
    let re = r"^/(.*)/(.*)/(.*)/(.*)/(.*)$";
    let orig = "/a1/b2/c3/d4/e5";
    let out = replace_placeholders(orig, re, "/$0|$1|$2|$3|$4|$5").unwrap();
    assert_eq!(out, format!("/{orig}|a1|b2|c3|d4|e5"));
}

#[test]
fn redirect_entries_come_from_glob_sources() {
    let e = redirect_entry(None, "/old/{a,b}", "/new/$1".to_string(), RedirectsKind::Permanent).unwrap();
    assert_eq!(e.source, "^/old/(a|b)$");
    assert_eq!(e.kind, 301);
    let r = vec![e];
    assert_eq!(run(Some(&r), "", "/old/b"), Some((301, "/new/b".into())));
    assert!(run(Some(&r), "", "/old/c").is_none());
    assert_eq!(
        redirect_entry(None, "/old/[", "/x".to_string(), RedirectsKind::Temporary).unwrap_err(),
        SourceError::Glob
    );
}
