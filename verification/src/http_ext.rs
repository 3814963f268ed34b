//! HTTP methods as the server sees them, and the `Vary` header update for
//! content-coded responses.
use vstd::prelude::*;

use crate::text::chars_of;

verus! {

/// An HTTP request method.
#[derive(Debug, Clone, PartialEq, Eq)]
pub enum Method {
    /// `OPTIONS`
    Options,
    /// `GET`
    Get,
    /// `POST`
    Post,
    /// `PUT`
    Put,
    /// `DELETE`
    Delete,
    /// `HEAD`
    Head,
    /// `TRACE`
    Trace,
    /// `CONNECT`
    Connect,
    /// `PATCH`
    Patch,
    /// Any other method, by its name.
    Extension(String),
}

/// The methods the server supports: `OPTIONS`, `HEAD` and `GET`.
pub open spec fn is_allowed_method(m: Method) -> bool {
    m is Options || m is Head || m is Get
}

/// Whether the method is `HEAD`.
pub open spec fn is_head_method(m: Method) -> bool {
    m is Head
}

/// Method predicates used by the request handlers.
pub trait MethodExt {
    /// If the method is allowed.
    fn is_allowed(&self) -> bool;
    /// If the method is `GET`.
    fn is_get(&self) -> bool;
    /// If the method is `HEAD`.
    fn is_head(&self) -> bool;
    /// If the method is `OPTIONS`.
    fn is_options(&self) -> bool;
}

impl MethodExt for Method {
    /// Checks if the method is supported: one of `OPTIONS`, `HEAD`, `GET`.
    fn is_allowed(&self) -> (r: bool)
        ensures
            r == is_allowed_method(*self),
    {
        match self {
            Method::Options | Method::Head | Method::Get => true,
            _ => false,
        }
    }

    /// Checks if the method is `GET`.
    fn is_get(&self) -> (r: bool)
        ensures
            r == (*self is Get),
    {
        match self {
            Method::Get => true,
            _ => false,
        }
    }

    /// Checks if the method is `HEAD`.
    fn is_head(&self) -> (r: bool)
        ensures
            r == is_head_method(*self),
    {
        match self {
            Method::Head => true,
            _ => false,
        }
    }

    /// Checks if the method is `OPTIONS`.
    fn is_options(&self) -> (r: bool)
        ensures
            r == (*self is Options),
    {
        match self {
            Method::Options => true,
            _ => false,
        }
    }
}

/// The `accept-encoding` header name as listed in `Vary`.
pub const ACCEPT_ENCODING: &'static str = "accept-encoding";

/// Whether `p` occurs in `s` at position `i`.
pub open spec fn occurs_at(s: Seq<char>, p: Seq<char>, i: int) -> bool {
    0 <= i && i + p.len() <= s.len() && s.subrange(i, i + p.len()) == p
}

/// Whether `p` occurs anywhere in `s`.
pub open spec fn contains_seq(s: Seq<char>, p: Seq<char>) -> bool {
    exists|i: int| occurs_at(s, p, i)
}

/// Substring search.
pub fn contains_str(s: &str, p: &str) -> (r: bool)
    ensures
        r == contains_seq(s@, p@),
{
    let sv = chars_of(s);
    let pv = chars_of(p);
    if pv.len() > sv.len() {
        proof {
            assert forall|i: int| !occurs_at(s@, p@, i) by {}
        }
        return false;
    }
    let last: usize = sv.len() - pv.len();
    let mut i: usize = 0;
    while i <= last
        invariant
            sv@ == s@,
            pv@ == p@,
            pv.len() <= sv.len(),
            last == sv.len() - pv.len(),
            i <= last + 1,
            forall|k: int| 0 <= k < i ==> !#[trigger] occurs_at(s@, p@, k),
        decreases last + 1 - i,
    {
        let mut j: usize = 0;
        let mut same = true;
        while j < pv.len()
            invariant
                sv@ == s@,
                pv@ == p@,
                i <= last,
                last == sv.len() - pv.len(),
                j <= pv.len(),
                same == (forall|t: int| 0 <= t < j ==> sv@[i + t] == pv@[t]),
            decreases pv.len() - j,
        {
            if sv[i + j] != pv[j] {
                same = false;
            }
            j = j + 1;
        }
        if same {
            assert(s@.subrange(i as int, i + p@.len()) =~= p@);
            assert(occurs_at(s@, p@, i as int));
            return true;
        }
        proof {
            if occurs_at(s@, p@, i as int) {
                assert forall|t: int| 0 <= t < pv.len() implies sv@[i + t] == pv@[t] by {
                    assert(s@.subrange(i as int, i + p@.len())[t] == s@[i + t]);
                }
            }
        }
        i = i + 1;
    }
    proof {
        assert forall|k: int| !occurs_at(s@, p@, k) by {
            if 0 <= k < i {
            }
        }
    }
    false
}

/// The new `Vary` value after listing `accept-encoding`, given the current
/// value (`None` when the header is absent): `None` when it is listed
/// already and the header stays as it is.
pub open spec fn vary_update(existing: Option<Seq<char>>) -> Option<Seq<char>> {
    match existing {
        None => Some("accept-encoding"@),
        Some(s) => if contains_seq(s, "accept-encoding"@) {
            None
        } else if s.len() == 0 {
            Some("accept-encoding"@)
        } else {
            Some(s + ", "@ + "accept-encoding"@)
        },
    }
}

/// The characters of an optional string.
pub open spec fn str_view(s: Option<&str>) -> Option<Seq<char>> {
    match s {
        Some(t) => Some(t@),
        None => None,
    }
}

/// Lists `accept-encoding` in a response's `Vary` header value, creating
/// it if absent and leaving it alone (`None`) if it is listed already.
pub fn append_vary_accept_encoding(existing: Option<&str>) -> (r: Option<String>)
    ensures
        r matches Some(v) ==> vary_update(str_view(existing)) == Some(v@),
        r is None ==> vary_update(str_view(existing)) is None,
{
    match existing {
        None => Some(String::from_str(ACCEPT_ENCODING)),
        Some(s) => {
            if contains_str(s, ACCEPT_ENCODING) {
                return None;
            }
            if s.is_empty() {
                return Some(String::from_str(ACCEPT_ENCODING));
            }
            let mut v = String::from_str(s);
            v.append(", ");
            v.append(ACCEPT_ENCODING);
            proof {
                assert(v@ =~= s@ + ", "@ + "accept-encoding"@);
            }
            Some(v)
        },
    }
}

/// The host that `http::uri::Authority` parsing finds in a text, or
/// nothing when the text is not a valid authority.
pub uninterp spec fn authority_host(value: Seq<char>) -> Option<Seq<char>>;

/// `http::uri::Authority::from_str` followed by `Authority::host`.
#[verifier::external_body]
pub(crate) fn parse_authority_host(value: &str) -> (r: Option<String>)
    ensures
        match r {
            Some(h) => authority_host(value@) == Some(h@),
            None => authority_host(value@) is None,
        },
{
    value.parse::<http::uri::Authority>().ok().map(|a| a.host().to_string())
}

/// Whether a character may stand in an HTTP header value: a tab or any
/// character but the ASCII control characters.
pub open spec fn is_header_value_char(c: char) -> bool {
    c == '\t' || (c as u32 >= 32 && c as u32 != 127)
}

/// Whether a text is a valid HTTP header value.
pub open spec fn is_header_value(s: Seq<char>) -> bool {
    forall|i: int| 0 <= i < s.len() ==> is_header_value_char(#[trigger] s[i])
}

/// `http::HeaderValue::from_str` succeeds exactly when every byte of the
/// text is a tab, or at least 32 and not 127; the bytes of a non-ASCII
/// character are all at least 128.
#[verifier::external_body]
pub(crate) fn header_value_ok(s: &str) -> (r: bool)
    ensures
        r == is_header_value(s@),
{
    http::HeaderValue::from_str(s).is_ok()
}

/// The host of a request: the authority of its URI when it has one (as
/// in HTTP/2), else the host part of its `Host` header.
pub open spec fn request_host_spec(uri_host: Option<Seq<char>>, host_header: Option<Seq<char>>) -> Option<
    Seq<char>,
> {
    match uri_host {
        Some(h) => Some(h),
        None => match host_header {
            Some(v) => authority_host(v),
            None => None,
        },
    }
}

/// Determines the host a request is addressed to.
pub fn request_host(uri_host: Option<&str>, host_header: Option<&str>) -> (r: Option<String>)
    ensures
        match r {
            Some(h) => request_host_spec(str_view(uri_host), str_view(host_header)) == Some(h@),
            None => request_host_spec(str_view(uri_host), str_view(host_header)) is None,
        },
{
    match uri_host {
        Some(h) => Some(String::from_str(h)),
        None => match host_header {
            Some(v) => parse_authority_host(v),
            None => None,
        },
    }
}

} // verus!

verus! {

/// Listing `accept-encoding` in `Vary` twice changes nothing the second
/// time: once updated, the value lists it.
pub proof fn lemma_vary_update_idempotent(existing: Option<Seq<char>>)
    ensures
        vary_update(existing) matches Some(v) ==> vary_update(Some(v)) is None,
{
    let ae = "accept-encoding"@;
    match vary_update(existing) {
        Some(v) => {
            if v == ae {
                assert(v.subrange(0, ae.len() as int) =~= ae);
                assert(occurs_at(v, ae, 0));
            } else {
                let s = existing.unwrap();
                assert(v == s + ", "@ + ae);
                let at: int = (s.len() + ", "@.len()) as int;
                assert(v.subrange(at, at + ae.len()) =~= ae);
                assert(occurs_at(v, ae, at));
            }
        },
        None => {},
    }
}

} // verus!
