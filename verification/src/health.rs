//! The health check endpoint.
use vstd::prelude::*;

use crate::http_ext::{Method, MethodExt};
use crate::text::str_eq;

verus! {

/// The path of the health endpoint.
pub const HEALTH_PATH: &'static str = "/health";

/// The body of a health answer to `GET`, sent as `text/plain`.
pub const HEALTH_BODY: &'static str = "OK";

/// How the health endpoint answers a request: not at all (`None`), with
/// the body `OK` (`Some(true)`, for `GET`) or with an empty body
/// (`Some(false)`, for `HEAD`).
pub open spec fn health_answer_spec(enabled: bool, path: Seq<char>, m: Method) -> Option<bool> {
    if !enabled || path != "/health"@ {
        None
    } else if m is Get {
        Some(true)
    } else if m is Head {
        Some(false)
    } else {
        None
    }
}

/// Whether a request path is the health endpoint.
pub fn is_health_endpoint(path: &str) -> (r: bool)
    ensures
        r == (path@ == "/health"@),
{
    str_eq(path, HEALTH_PATH)
}

/// Decides whether the health endpoint answers a request, and whether the
/// answer carries the `OK` body.
pub fn pre_process(enabled: bool, path: &str, m: &Method) -> (r: Option<bool>)
    ensures
        r == health_answer_spec(enabled, path@, *m),
{
    if !enabled || !is_health_endpoint(path) {
        return None;
    }
    if m.is_head() {
        Some(false)
    } else if m.is_get() {
        Some(true)
    } else {
        None
    }
}

} // verus!
