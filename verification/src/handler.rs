//! The request handler's options and the steps that may answer a request
//! before any file is looked up, in the order the handler takes them.
use vstd::prelude::*;

use crate::error_page::{error_page_content, error_response, HtmlResponse, PageCache};
use crate::health::health_answer_spec;
use crate::http_ext::{is_allowed_method, is_head_method, str_view, Method, MethodExt};
use crate::maintenance_mode::maintenance_page;
use crate::metrics::metrics_answer_spec;
use crate::redirects::{redirects_spec, RedirectOutcome, Redirects};
use crate::rewrites::{rewrite_answer, RewriteOutcome, Rewrites};

verus! {

/// The options of the request handler.
#[derive(Debug)]
pub struct RequestHandlerOpts {
    /// The root directory of the files served.
    pub root_dir: String,
    /// Whether responses are compressed on the fly.
    pub compression: bool,
    /// Whether pre-compressed files are served.
    pub compression_static: bool,
    /// Whether the security headers are added.
    pub security_headers: bool,
    /// Whether `Cache-Control` headers are added.
    pub cache_control_headers: bool,
    /// The 404 page file.
    pub page404: String,
    /// The 50x page file.
    pub page50x: String,
    /// The fallback page (empty when none).
    pub page_fallback: String,
    /// The index files of directories.
    pub index_files: Vec<String>,
    /// Whether the remote address is logged.
    pub log_remote_address: bool,
    /// Whether `X-Forwarded-For` is logged.
    pub log_forwarded_for: bool,
    /// Whether directory requests without a trailing slash are redirected.
    pub redirect_trailing_slash: bool,
    /// Whether hidden files are refused.
    pub ignore_hidden_files: bool,
    /// Whether symbolic links are refused.
    pub disable_symlinks: bool,
    /// Whether the health endpoint answers.
    pub health: bool,
    /// Whether the metrics endpoint answers.
    pub experimental_metrics: bool,
    /// Whether the server is in maintenance mode.
    pub maintenance_mode: bool,
    /// The status of maintenance answers.
    pub maintenance_mode_status: u16,
    /// The page of maintenance answers.
    pub maintenance_mode_file: String,
    /// The redirect entries, if any.
    pub redirects: Option<Vec<Redirects>>,
    /// The rewrite entries, if any.
    pub rewrites: Option<Vec<Rewrites>>,
}

impl RequestHandlerOpts {
    /// Whether the options can be used: the maintenance status is a
    /// status code.
    pub open spec fn wf(&self) -> bool {
        100 <= self.maintenance_mode_status <= 999
    }
}

impl Default for RequestHandlerOpts {
    fn default() -> (r: Self)
        ensures
            r.root_dir@ == "./public"@,
            r.compression && !r.compression_static,
            !r.security_headers && r.cache_control_headers,
            r.page404@ == "./404.html"@ && r.page50x@ == "./50x.html"@,
            r.page_fallback@.len() == 0,
            r.index_files@.len() == 1 && r.index_files@[0]@ == "index.html"@,
            !r.log_remote_address && !r.log_forwarded_for,
            r.redirect_trailing_slash && !r.ignore_hidden_files && !r.disable_symlinks,
            !r.health && !r.experimental_metrics,
            !r.maintenance_mode && r.maintenance_mode_status == 503,
            r.maintenance_mode_file@.len() == 0,
            r.redirects is None && r.rewrites is None,
            r.wf(),
    {
        let mut index_files: Vec<String> = Vec::new();
        index_files.push(String::from_str("index.html"));
        RequestHandlerOpts {
            root_dir: String::from_str("./public"),
            compression: true,
            compression_static: false,
            security_headers: false,
            cache_control_headers: true,
            page404: String::from_str("./404.html"),
            page50x: String::from_str("./50x.html"),
            page_fallback: String::new(),
            index_files,
            log_remote_address: false,
            log_forwarded_for: false,
            redirect_trailing_slash: true,
            ignore_hidden_files: false,
            disable_symlinks: false,
            health: false,
            experimental_metrics: false,
            maintenance_mode: false,
            maintenance_mode_status: 503,
            maintenance_mode_file: String::new(),
            redirects: None,
            rewrites: None,
        }
    }
}

/// What the handler reads of a request before looking up a file.
#[derive(Debug)]
pub struct RequestFacts {
    /// The method.
    pub method: Method,
    /// The URI path.
    pub path: String,
    /// The URI query, if any.
    pub query: Option<String>,
    /// The URI scheme, if any.
    pub scheme: Option<String>,
    /// The URI authority, if any.
    pub authority: Option<String>,
    /// The URI host, if any.
    pub uri_host: Option<String>,
    /// The URI port, if any.
    pub uri_port: Option<u16>,
    /// The URI path and query, if any.
    pub path_and_query: Option<String>,
    /// The `Host` header, if any (and readable).
    pub host_header: Option<String>,
}

/// The characters of an optional string.
pub open spec fn opt_view(s: Option<String>) -> Option<Seq<char>> {
    match s {
        Some(t) => Some(t@),
        None => None,
    }
}

/// How the handler answers a request before any file is looked up.
#[derive(Debug)]
pub enum PreOutcome {
    /// The method is not supported: 405 with an error page.
    MethodNotAllowed(HtmlResponse),
    /// The health endpoint answers, with the `OK` body or not.
    Health(bool),
    /// The metrics endpoint answers, with the metrics text or not.
    Metrics(bool),
    /// The server is in maintenance mode.
    Maintenance(HtmlResponse),
    /// A redirect entry applies.
    Redirect(RedirectOutcome),
    /// The rewrite step's answer (`None` to serve the request as it is).
    Rewrite(Option<RewriteOutcome>),
}

/// Whether `r` is how the handler answers a request before looking up a
/// file: an unsupported method is refused; then the health endpoint, the
/// metrics endpoint, maintenance mode, the redirects and the rewrites get
/// their turn, in that order.
pub open spec fn pre_answer(
    r: PreOutcome,
    opts: RequestHandlerOpts,
    req: RequestFacts,
    pages: Map<Seq<char>, Seq<char>>,
    maintenance_file: Option<Option<Seq<u8>>>,
) -> bool {
    let m = req.method;
    let path = req.path@;
    if !is_allowed_method(m) {
        r matches PreOutcome::MethodNotAllowed(h) && h.status == 405 && h.body@ == error_page_content(
            405,
            pages,
            opts.page404@,
            opts.page50x@,
        ) && h.send_body == !is_head_method(m)
    } else if health_answer_spec(opts.health, path, m) is Some {
        r == PreOutcome::Health(health_answer_spec(opts.health, path, m).unwrap())
    } else if metrics_answer_spec(opts.experimental_metrics, path, m) is Some {
        r == PreOutcome::Metrics(metrics_answer_spec(opts.experimental_metrics, path, m).unwrap())
    } else if opts.maintenance_mode {
        r matches PreOutcome::Maintenance(h) && h.status == opts.maintenance_mode_status && h.body@
            == maintenance_page(opts.maintenance_mode_status, maintenance_file) && h.send_body
            == !is_head_method(m)
    } else {
        let redirect = redirects_spec(
            match opts.redirects {
                Some(v) => Some(v@),
                None => None,
            },
            path,
            opt_view(req.uri_host),
            req.uri_port,
            opt_view(req.host_header),
            opt_view(req.query),
        );
        match redirect {
            Some(Ok((status, loc))) => r matches PreOutcome::Redirect(
                RedirectOutcome::Redirect { status: s, location },
            ) && s == status && location@ == loc,
            Some(Err(())) => r matches PreOutcome::Redirect(RedirectOutcome::ServerError),
            None => r matches PreOutcome::Rewrite(rw) && rewrite_answer(
                rw,
                match opts.rewrites {
                    Some(v) => Some(v@),
                    None => None,
                },
                path,
                opt_view(req.scheme),
                opt_view(req.authority),
                opt_view(req.path_and_query),
            ),
        }
    }
}

/// An optional string as a string slice.
fn as_str_opt(s: &Option<String>) -> (r: Option<&str>)
    ensures
        str_view(r) == opt_view(*s),
{
    match s {
        Some(t) => Some(t.as_str()),
        None => None,
    }
}

/// Takes the steps that may answer a request before any file is looked
/// up. `maintenance_file` is what the maintenance page file names: `None`
/// when it is not a regular file, else its bytes when they could be read.
pub fn pre_process(
    opts: &RequestHandlerOpts,
    req: &RequestFacts,
    pages: &PageCache,
    maintenance_file: Option<Option<Vec<u8>>>,
) -> (r: PreOutcome)
    requires
        opts.wf(),
    ensures
        pre_answer(
            r,
            *opts,
            *req,
            pages.pages(),
            match maintenance_file {
                Some(Some(b)) => Some(Some(b@)),
                Some(None) => Some(None),
                None => None,
            },
        ),
{
    let m = &req.method;
    if !m.is_allowed() {
        return PreOutcome::MethodNotAllowed(
            error_response(m, 405, opts.page404.as_str(), opts.page50x.as_str(), pages),
        );
    }
    if let Some(b) = crate::health::pre_process(opts.health, req.path.as_str(), m) {
        return PreOutcome::Health(b);
    }
    if let Some(b) = crate::metrics::metrics_answer(opts.experimental_metrics, req.path.as_str(), m) {
        return PreOutcome::Metrics(b);
    }
    if let Some(h) = crate::maintenance_mode::pre_process(
        opts.maintenance_mode,
        m,
        opts.maintenance_mode_status,
        maintenance_file,
    ) {
        return PreOutcome::Maintenance(h);
    }
    let redirects: Option<&[Redirects]> = match &opts.redirects {
        Some(v) => Some(v.as_slice()),
        None => None,
    };
    if let Some(o) = crate::redirects::pre_process(
        redirects,
        req.path.as_str(),
        as_str_opt(&req.uri_host),
        req.uri_port,
        as_str_opt(&req.host_header),
        as_str_opt(&req.query),
    ) {
        return PreOutcome::Redirect(o);
    }
    let rewrites: Option<&[Rewrites]> = match &opts.rewrites {
        Some(v) => Some(v.as_slice()),
        None => None,
    };
    PreOutcome::Rewrite(
        crate::rewrites::pre_process(
            rewrites,
            req.path.as_str(),
            as_str_opt(&req.scheme),
            as_str_opt(&req.authority),
            as_str_opt(&req.path_and_query),
        ),
    )
}

} // verus!
