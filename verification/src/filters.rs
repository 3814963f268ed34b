//! Request filters on headers.
use vstd::prelude::*;

use crate::http_ext::{contains_seq, contains_str};

verus! {

/// Why a request does not pass a header filter.
#[derive(Debug, Clone, Copy, PartialEq, Eq, Structural)]
pub enum FilterRejection {
    /// The header is missing (or is not text).
    MissingHeader,
    /// The header does not hold what is looked for.
    InvalidHeader,
}

/// Passes requests whose `Accept-Encoding` header (given as text when
/// present) contains `occurrence`.
pub fn has_accept_encoding(accept_encoding: Option<&str>, occurrence: &str) -> (r: Result<
    (),
    FilterRejection,
>)
    ensures
        match accept_encoding {
            None => r == Err::<(), FilterRejection>(FilterRejection::MissingHeader),
            Some(s) => if contains_seq(s@, occurrence@) {
                r == Ok::<(), FilterRejection>(())
            } else {
                r == Err::<(), FilterRejection>(FilterRejection::InvalidHeader)
            },
        },
{
    match accept_encoding {
        None => Err(FilterRejection::MissingHeader),
        Some(s) => if contains_str(s, occurrence) {
            Ok(())
        } else {
            Err(FilterRejection::InvalidHeader)
        },
    }
}

} // verus!
