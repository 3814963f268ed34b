//! The fallback page served in place of 404 answers to `GET` requests.
use vstd::prelude::*;

use crate::error_page::{build_html_response, HtmlResponse};
use crate::http_ext::{Method, MethodExt};

verus! {

/// Whether a response is replaced by the fallback page: the request is a
/// `GET`, the response a 404, and a fallback page is configured.
pub open spec fn uses_fallback(m: Method, status: u16, page: Seq<char>) -> bool {
    m is Get && status == 404 && page.len() > 0
}

/// The fallback page response: the page with status 200.
pub fn fallback_response(page_fallback: &str) -> (r: HtmlResponse)
    ensures
        r.status == 200,
        r.body@ == page_fallback@,
        r.send_body,
{
    build_html_response(String::from_str(page_fallback), 200, None)
}

/// Replaces a response by the fallback page when it applies: `Some` holds
/// the new response, `None` keeps the one given.
pub fn post_process(m: &Method, status: u16, page_fallback: &str) -> (r: Option<HtmlResponse>)
    ensures
        uses_fallback(*m, status, page_fallback@) <==> r is Some,
        r matches Some(resp) ==> resp.status == 200 && resp.body@ == page_fallback@
            && resp.send_body,
{
    if m.is_get() && status == 404 && !page_fallback.is_empty() {
        Some(fallback_response(page_fallback))
    } else {
        None
    }
}

} // verus!
