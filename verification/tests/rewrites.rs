use static_web_server::rewrites::{merge_uris, pre_process, rewrite_entry, RewriteOutcome, Rewrites};
use static_web_server::settings::RedirectsKind;

fn get_rewrites() -> Vec<Rewrites> {
    vec![
        Rewrites { source: r"/source1$".to_string(), destination: "/destination1".into(), redirect: None },
        Rewrites {
            source: r"/source2$".to_string(),
            destination: "/destination2".into(),
            redirect: Some(RedirectsKind::Temporary),
        },
        Rewrites {
            source: r"/(prefix/)?(source3)/(.*)".to_string(),
            destination: "/destination3/$2/$3".into(),
            redirect: Some(RedirectsKind::Permanent),
        },
        Rewrites {
            source: r"/(source4)/(.*)".to_string(),
            destination: "http://example.net:1234/destination4/$1?$2".into(),
            redirect: None,
        },
    ]
}

/// Runs the rewrites for an origin-form request target.
fn run(rewrites: Option<&[Rewrites]>, uri: &str) -> Option<RewriteOutcome> {
    let path = match uri.find('?') {
        Some(i) => &uri[..i],
        None => uri,
    };
    pre_process(rewrites, path, None, None, Some(uri))
}

#[test]
fn test_no_rewrites() {
    assert!(run(None, "/").is_none());
}

#[test]
fn rewrites_test_no_match() {
    let r = get_rewrites();
    assert!(run(Some(&r), "/source2/whatever").is_none());
}

#[test]
fn rewrites_test_match() {
    let r = get_rewrites();
    assert_eq!(
        run(Some(&r), "/source1?query"),
        Some(RewriteOutcome::Rewrite { uri: "/destination1?query".into(), host: None })
    );
    assert_eq!(
        run(Some(&r), "/source2"),
        Some(RewriteOutcome::Redirect { status: 302, location: "/destination2".into() })
    );
    assert_eq!(
        run(Some(&r), "/source3/whatever"),
        Some(RewriteOutcome::Redirect { status: 301, location: "/destination3/source3/whatever".into() })
    );
    assert_eq!(
        run(Some(&r), "/source4/whatever?query"),
        Some(RewriteOutcome::Rewrite {
            uri: "http://example.net:1234/destination4/source4?whatever".into(),
            host: Some("example.net:1234".into()),
        })
    );
}

#[test]
fn merge_uris_fills_missing_parts() {
    assert_eq!(
        merge_uris(Some("https"), Some("example.com"), Some("/a?x=1"), "/b"),
        Some("https://example.com/b?x=1".to_string())
    );
    assert_eq!(
        merge_uris(Some("https"), Some("example.com"), Some("/a?x=1"), "/b?y=2"),
        Some("https://example.com/b?y=2".to_string())
    );
    assert_eq!(merge_uris(None, None, Some("/a"), "not a uri"), None);
}

#[test]
fn rewrite_entries_come_from_glob_sources() {
    let e = rewrite_entry("/docs/**", "/manual.html".to_string(), None).unwrap();
    assert_eq!(e.source, "^/docs/.*$");
    let r = vec![e];
    assert_eq!(
        run(Some(&r), "/docs/a/b"),
        Some(RewriteOutcome::Rewrite { uri: "/manual.html".into(), host: None })
    );
}
