//! Error answers to requests that no route accepted.
use vstd::prelude::*;

use crate::error_page::{canonical_reason, reason_phrase};
use crate::maintenance_mode::status_display;
use crate::numfmt::push_dec;

verus! {

/// Why a request was rejected.
#[derive(Debug, Clone, Copy, PartialEq, Eq, Structural)]
pub enum RejectionKind {
    /// Nothing was found for it.
    NotFound,
    /// Its body could not be read.
    BodyDeserialize,
    /// Its method is not allowed.
    MethodNotAllowed,
    /// CORS forbids it.
    CorsForbidden,
    /// Its media type is not supported.
    UnsupportedMediaType,
    /// Anything else.
    Other,
}

/// The status of a rejection.
pub open spec fn rejection_status(kind: RejectionKind) -> u16 {
    match kind {
        RejectionKind::NotFound => 404,
        RejectionKind::BodyDeserialize => 400,
        RejectionKind::MethodNotAllowed => 405,
        RejectionKind::CorsForbidden => 403,
        RejectionKind::UnsupportedMediaType => 415,
        RejectionKind::Other => 500,
    }
}

/// The HTML page of a rejection: the 404 page for what was not found, the
/// 50x page for other errors, and when that page is empty (or for the
/// other statuses) a page titled with the status.
pub open spec fn rejection_page(kind: RejectionKind, page404: Seq<char>, page50x: Seq<char>) -> Seq<
    char,
> {
    let content = match kind {
        RejectionKind::NotFound => page404,
        RejectionKind::Other => page50x,
        _ => Seq::empty(),
    };
    if content.len() > 0 {
        content
    } else {
        let code = status_display(rejection_status(kind));
        "<html><head><title>"@ + code + "</title></head><body><center><h1>"@ + code
            + "</h1></center></body></html>"@
    }
}

/// The status of a rejection, displayed.
fn display_status(code: u16) -> (s: String)
    requires
        100 <= code <= 999,
    ensures
        s@ == status_display(code),
{
    let mut s = String::new();
    push_dec(&mut s, code as u64);
    s.append(" ");
    match canonical_reason(code) {
        Some(r) => s.append(r),
        None => s.append("<unknown status code>"),
    }
    s
}

/// Answers a rejected request with its status and HTML page, given the
/// loaded 404 and 50x pages.
pub fn handle_rejection(kind: RejectionKind, page404: &str, page50x: &str) -> (r: (u16, String))
    ensures
        r.0 == rejection_status(kind),
        r.1@ == rejection_page(kind, page404@, page50x@),
{
    let (code, content) = match kind {
        RejectionKind::NotFound => (404u16, String::from_str(page404)),
        RejectionKind::BodyDeserialize => (400u16, String::new()),
        RejectionKind::MethodNotAllowed => (405u16, String::new()),
        RejectionKind::CorsForbidden => (403u16, String::new()),
        RejectionKind::UnsupportedMediaType => (415u16, String::new()),
        RejectionKind::Other => (500u16, String::from_str(page50x)),
    };
    if !content.as_str().is_empty() {
        return (code, content);
    }
    let d = display_status(code);
    let mut page = String::from_str("<html><head><title>");
    page.append(d.as_str());
    page.append("</title></head><body><center><h1>");
    page.append(d.as_str());
    page.append("</h1></center></body></html>");
    assert(page@ =~= rejection_page(kind, page404@, page50x@));
    (code, page)
}

} // verus!
