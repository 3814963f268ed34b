use static_web_server::error_page::PageCache;
use static_web_server::handler::{pre_process, PreOutcome, RequestFacts, RequestHandlerOpts};
use static_web_server::http_ext::Method;
use static_web_server::redirects::{RedirectOutcome, Redirects};
use static_web_server::rewrites::{RewriteOutcome, Rewrites};

fn facts(method: Method, target: &str) -> RequestFacts {
    let (path, query) = match target.find('?') {
        Some(i) => (target[..i].to_string(), Some(target[i + 1..].to_string())),
        None => (target.to_string(), None),
    };
    RequestFacts {
        method,
        path,
        query,
        scheme: None,
        authority: None,
        uri_host: None,
        uri_port: None,
        path_and_query: Some(target.to_string()),
        host_header: None,
    }
}

#[test]
fn default_options() {
    let opts = RequestHandlerOpts::default();
    assert_eq!(opts.root_dir, "./public");
    assert_eq!(opts.index_files, vec!["index.html".to_string()]);
    assert_eq!(opts.maintenance_mode_status, 503);
    assert!(opts.redirect_trailing_slash);
}

#[test]
fn unsupported_methods_are_refused_first() {
    let mut opts = RequestHandlerOpts::default();
    opts.health = true;
    opts.maintenance_mode = true;
    match pre_process(&opts, &facts(Method::Post, "/health"), &PageCache::new(), None) {
        PreOutcome::MethodNotAllowed(h) => {
            assert_eq!(h.status, 405);
            assert!(h.body.contains("405 Method Not Allowed"));
        }
        other => panic!("unexpected {other:?}"),
    }
}

#[test]
fn health_then_maintenance() {
    let mut opts = RequestHandlerOpts::default();
    opts.health = true;
    opts.maintenance_mode = true;
    assert!(matches!(
        pre_process(&opts, &facts(Method::Get, "/health"), &PageCache::new(), None),
        PreOutcome::Health(true)
    ));
    match pre_process(&opts, &facts(Method::Head, "/index.html"), &PageCache::new(), None) {
        PreOutcome::Maintenance(h) => {
            assert_eq!(h.status, 503);
            assert!(!h.send_body);
            assert!(h.body.contains("The server is in maintenance mode."));
        }
        other => panic!("unexpected {other:?}"),
    }
}

#[test]
fn redirects_come_before_rewrites() {
    let mut opts = RequestHandlerOpts::default();
    opts.redirects = Some(vec![Redirects {
        host: None,
        source: "^/a$".to_string(),
        destination: "/b".to_string(),
        kind: 302,
    }]);
    opts.rewrites = Some(vec![Rewrites {
        source: "^/(a|c)$".to_string(),
        destination: "/d".to_string(),
        redirect: None,
    }]);
    assert!(matches!(
        pre_process(&opts, &facts(Method::Get, "/a"), &PageCache::new(), None),
        PreOutcome::Redirect(RedirectOutcome::Redirect { status: 302, .. })
    ));
    match pre_process(&opts, &facts(Method::Get, "/c?x=1"), &PageCache::new(), None) {
        PreOutcome::Rewrite(Some(RewriteOutcome::Rewrite { uri, host })) => {
            assert_eq!(uri, "/d?x=1");
            assert_eq!(host, None);
        }
        other => panic!("unexpected {other:?}"),
    }
    assert!(matches!(
        pre_process(&opts, &facts(Method::Get, "/e"), &PageCache::new(), None),
        PreOutcome::Rewrite(None)
    ));
}
