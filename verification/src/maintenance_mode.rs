//! The maintenance mode answer.
use vstd::prelude::*;

use crate::error_page::{build_html_response, byte_len, canonical_reason, reason_phrase, HtmlResponse};
use crate::helpers::{read_text_default, utf8_lossy};
use crate::http_ext::{is_head_method, Method};
use crate::numfmt::{dec, push_dec};
use crate::text::trim;

verus! {

/// The status of maintenance answers unless another is configured: 503.
pub const DEFAULT_STATUS: u16 = 503;

/// The message of the default maintenance page.
pub const DEFAULT_BODY_CONTENT: &'static str = "The server is in maintenance mode.";

/// How `http::StatusCode` displays a code: the number and the reason
/// phrase.
pub open spec fn status_display(code: u16) -> Seq<char> {
    dec(code as nat) + " "@ + match reason_phrase(code) {
        Some(r) => r,
        None => "<unknown status code>"@,
    }
}

/// The default maintenance page.
pub open spec fn default_maintenance_page(code: u16) -> Seq<char> {
    "<html><head><title>"@ + status_display(code) + "</title></head><body><center><h1>"@
        + DEFAULT_BODY_CONTENT@ + "</h1></center></body></html>"@
}

/// The maintenance page: the trimmed text of the configured file when it
/// names a regular file (`file` is `Some`, holding its bytes when they
/// could be read), else the default page.
pub open spec fn maintenance_page(code: u16, file: Option<Option<Seq<u8>>>) -> Seq<char> {
    match file {
        Some(Some(b)) => trim(utf8_lossy(b)),
        Some(None) => Seq::empty(),
        None => default_maintenance_page(code),
    }
}

/// The answer of the server in maintenance mode.
pub fn get_response(m: &Method, status_code: u16, file: Option<Option<Vec<u8>>>) -> (r: HtmlResponse)
    requires
        100 <= status_code <= 999,
    ensures
        r.status == status_code,
        r.body@ == maintenance_page(
            status_code,
            match file {
                Some(Some(b)) => Some(Some(b@)),
                Some(None) => Some(None),
                None => None,
            },
        ),
        byte_len(r.body@) <= usize::MAX ==> r.content_length == byte_len(r.body@),
        r.send_body == !is_head_method(*m),
{
    let body = match file {
        Some(contents) => read_text_default(contents),
        None => {
            let mut s = String::from_str("<html><head><title>");
            push_dec(&mut s, status_code as u64);
            s.append(" ");
            match canonical_reason(status_code) {
                Some(r) => s.append(r),
                None => s.append("<unknown status code>"),
            }
            s.append("</title></head><body><center><h1>");
            s.append(DEFAULT_BODY_CONTENT);
            s.append("</h1></center></body></html>");
            assert(s@ =~= default_maintenance_page(status_code));
            s
        },
    };
    build_html_response(body, status_code, Some(m))
}

/// Answers every request while maintenance mode is enabled.
pub fn pre_process(enabled: bool, m: &Method, status_code: u16, file: Option<Option<Vec<u8>>>) -> (r:
    Option<HtmlResponse>)
    requires
        100 <= status_code <= 999,
    ensures
        enabled <==> r is Some,
        r matches Some(resp) ==> resp.status == status_code && resp.body@ == maintenance_page(
            status_code,
            match file {
                Some(Some(b)) => Some(Some(b@)),
                Some(None) => Some(None),
                None => None,
            },
        ) && resp.send_body == !is_head_method(*m),
{
    if enabled {
        Some(get_response(m, status_code, file))
    } else {
        None
    }
}

} // verus!
