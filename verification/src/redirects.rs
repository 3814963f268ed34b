//! URL redirects: the first configured entry whose host and source
//! pattern match a request sends it to its destination, with the
//! pattern's captures filled into the destination's `$N` placeholders.
//!
//! Patterns are matched with `regex_lite`, which has no backtracking, and
//! request paths longer than [`MAX_URI_LEN_FOR_REGEX`] bytes are not
//! matched at all.
use vstd::prelude::*;

use crate::http_ext::{header_value_ok, is_header_value, str_view};
use crate::numfmt::{dec, push_dec};
use crate::settings::RedirectsKind;
use crate::text::{chars_of, str_eq};
use crate::url_patterns::{fill_placeholders, fill_placeholders_spec, opt_views, source_regex, source_regex_of};

verus! {

/// The longest request path, in bytes, that redirect patterns are
/// matched against.
pub const MAX_URI_LEN_FOR_REGEX: usize = 8192;

/// Whether a `regex_lite` pattern compiles.
pub uninterp spec fn lite_regex_compiles(pattern: Seq<char>) -> bool;

/// Whether a compiled `regex_lite` pattern matches somewhere in a text.
pub uninterp spec fn lite_regex_match(pattern: Seq<char>, text: Seq<char>) -> bool;

/// The groups of the leftmost-first match of a compiled `regex_lite`
/// pattern in a text (`None` for a group that did not participate).
pub uninterp spec fn lite_regex_captures(pattern: Seq<char>, text: Seq<char>) -> Seq<
    Option<Seq<char>>,
>;

/// `regex_lite::Regex::new`: whether the pattern compiles.
#[verifier::external_body]
fn lite_compiles(pattern: &str) -> (r: bool)
    ensures
        r == lite_regex_compiles(pattern@),
{
    regex_lite::Regex::new(pattern).is_ok()
}

/// `regex_lite::Regex::new(pattern)`, then `Regex::is_match(text)`.
#[verifier::external_body]
fn lite_is_match(pattern: &str, text: &str) -> (r: Option<bool>)
    ensures
        r is Some <==> lite_regex_compiles(pattern@),
        r matches Some(b) ==> b == lite_regex_match(pattern@, text@),
{
    regex_lite::Regex::new(pattern).ok().map(|re| re.is_match(text))
}

/// `regex_lite::Regex::new(pattern)`, then `Regex::captures(text)`, each
/// group as its text: there are captures exactly when the pattern matches,
/// and group 0, the whole match, always takes part.
#[verifier::external_body]
fn lite_captures(pattern: &str, text: &str) -> (r: Option<Option<Vec<Option<String>>>>)
    ensures
        r is Some <==> lite_regex_compiles(pattern@),
        r matches Some(c) ==> (c is Some <==> lite_regex_match(pattern@, text@)),
        r matches Some(Some(c)) ==> opt_views(c@) == lite_regex_captures(pattern@, text@) && c@.len()
            >= 1 && c@[0] is Some,
{
    let re = regex_lite::Regex::new(pattern).ok()?;
    Some(
        re.captures(text).map(
            |caps| (0..caps.len()).map(|i| caps.get(i).map(|m| m.as_str().to_string())).collect(),
        ),
    )
}

/// A redirect entry.
#[derive(Debug, Clone)]
pub struct Redirects {
    /// The host the request must be addressed to, if any.
    pub host: Option<String>,
    /// The regular expression of request paths it applies to.
    pub source: String,
    /// The destination, with `$N` placeholders for the captures.
    pub destination: String,
    /// The redirect status: 301 Moved Permanently or 302 Found.
    pub kind: u16,
}

/// Why a redirect entry of the settings could not be built.
#[derive(Debug, Clone, Copy, PartialEq, Eq, Structural)]
pub enum SourceError {
    /// The glob source pattern does not compile.
    Glob,
    /// The regular expression of the glob does not compile.
    Regex,
}

/// The redirect entry of a settings entry: its glob source is turned into
/// the regular expression that is matched.
pub open spec fn redirect_entry_spec(glob: Seq<char>) -> Result<Seq<char>, SourceError> {
    match source_regex(glob) {
        None => Err(SourceError::Glob),
        Some(re) => if lite_regex_compiles(re) {
            Ok(re)
        } else {
            Err(SourceError::Regex)
        },
    }
}

/// Builds a redirect entry from its settings values.
pub fn redirect_entry(host: Option<String>, source: &str, destination: String, kind: RedirectsKind) -> (r:
    Result<Redirects, SourceError>)
    ensures
        match redirect_entry_spec(source@) {
            Ok(re) => r matches Ok(e) && e.source@ == re && e.host == host && e.destination
                == destination && e.kind == (match kind {
                RedirectsKind::Permanent => 301u16,
                RedirectsKind::Temporary => 302u16,
            }),
            Err(k) => r matches Err(x) && x == k,
        },
{
    let re = match source_regex_of(source) {
        None => {
            return Err(SourceError::Glob);
        },
        Some(re) => re,
    };
    if !lite_compiles(re.as_str()) {
        return Err(SourceError::Regex);
    }
    Ok(Redirects { host, source: re, destination, kind: kind.status() })
}

/// Whether a redirect entry applies to a request host and path.
pub open spec fn redirect_applies(e: Redirects, host: Seq<char>, path: Seq<char>) -> bool {
    &&& match e.host {
        Some(h) => h@ == host,
        None => true,
    }
    &&& lite_regex_compiles(e.source@)
    &&& lite_regex_match(e.source@, path)
}

/// The index of the first entry that applies.
pub open spec fn first_redirect(v: Seq<Redirects>, host: Seq<char>, path: Seq<char>) -> Option<int>
    decreases v.len(),
{
    if v.len() == 0 {
        None
    } else if redirect_applies(v[0], host, path) {
        Some(0)
    } else {
        match first_redirect(v.drop_first(), host, path) {
            Some(i) => Some(i + 1),
            None => None,
        }
    }
}

/// The entry that `first_redirect` finds applies, and no entry before it
/// does; when it finds none, no entry applies.
pub proof fn lemma_first_redirect(v: Seq<Redirects>, host: Seq<char>, path: Seq<char>)
    ensures
        first_redirect(v, host, path) matches Some(i) ==> 0 <= i < v.len() && redirect_applies(
            v[i],
            host,
            path,
        ) && forall|j: int| 0 <= j < i ==> !redirect_applies(#[trigger] v[j], host, path),
        first_redirect(v, host, path) is None ==> forall|j: int|
            0 <= j < v.len() ==> !redirect_applies(#[trigger] v[j], host, path),
    decreases v.len(),
{
    if v.len() > 0 {
        lemma_first_redirect(v.drop_first(), host, path);
        assert forall|j: int| 1 <= j < v.len() implies v[j] == v.drop_first()[j - 1] by {}
    }
}

/// The first redirect entry that applies to a request host and path.
#[verifier::loop_isolation(false)]
pub fn get_redirection<'a>(uri_host: &str, uri_path: &str, redirects_opts: Option<&'a [Redirects]>) -> (r:
    Option<&'a Redirects>)
    ensures
        match redirects_opts {
            None => r is None,
            Some(v) => match first_redirect(v@, uri_host@, uri_path@) {
                Some(i) => r == Some(&v@[i]),
                None => r is None,
            },
        },
{
    let v = match redirects_opts {
        None => {
            return None;
        },
        Some(v) => v,
    };
    assert(v@.skip(0) =~= v@);
    let mut i: usize = 0;
    while i < v.len()
        invariant
            i <= v@.len(),
            first_redirect(v@, uri_host@, uri_path@) == match first_redirect(
                v@.skip(i as int),
                uri_host@,
                uri_path@,
            ) {
                Some(j) => Some(j + i),
                None => None,
            },
        decreases v@.len() - i,
    {
        assert(v@.skip(i as int)[0] == v@[i as int]);
        assert(v@.skip(i as int).drop_first() =~= v@.skip(i + 1));
        let e = &v[i];
        let host_ok = match &e.host {
            Some(h) => str_eq(h.as_str(), uri_host),
            None => true,
        };
        if host_ok {
            if lite_is_match(e.source.as_str(), uri_path) == Some(true) {
                return Some(e);
            }
        }
        i = i + 1;
    }
    assert(v@.skip(i as int) =~= Seq::<Redirects>::empty());
    None
}

/// Why the placeholders of a destination could not be filled.
#[derive(Debug, Clone, Copy, PartialEq, Eq, Structural)]
pub enum PlaceholderError {
    /// The pattern does not match the path, so there are no captures.
    NoMatch,
    /// The captures could not be put in place.
    Replace,
}

/// The destination with its placeholders filled from the captures of the
/// pattern in the request path.
pub open spec fn replace_placeholders_spec(orig: Seq<char>, pattern: Seq<char>, dest: Seq<char>) -> Result<
    Seq<char>,
    PlaceholderError,
> {
    if !lite_regex_compiles(pattern) || !lite_regex_match(pattern, orig) {
        Err(PlaceholderError::NoMatch)
    } else {
        match fill_placeholders_spec(lite_regex_captures(pattern, orig), dest) {
            Some(s) => Ok(s),
            None => Err(PlaceholderError::Replace),
        }
    }
}

/// Fills the `$N` placeholders of a destination with the captures of a
/// pattern in the request path (`$0` is the whole match).
pub fn replace_placeholders(orig_uri: &str, pattern: &str, dest_uri: &str) -> (r: Result<
    String,
    PlaceholderError,
>)
    ensures
        match replace_placeholders_spec(orig_uri@, pattern@, dest_uri@) {
            Ok(s) => r matches Ok(x) && x@ == s,
            Err(e) => r matches Err(x) && x == e,
        },
{
    let caps = match lite_captures(pattern, orig_uri) {
        Some(Some(c)) => c,
        _ => {
            return Err(PlaceholderError::NoMatch);
        },
    };
    match fill_placeholders(&caps, dest_uri) {
        Some(s) => Ok(s),
        None => Err(PlaceholderError::Replace),
    }
}

/// The host a redirect entry is checked against: the URI host, else the
/// `Host` header (as it is), else nothing; followed by `:` and the URI
/// port when the URI has one.
pub open spec fn redirect_host(uri_host: Option<Seq<char>>, host_header: Option<Seq<char>>, port: Option<
    u16,
>) -> Seq<char> {
    let h = match uri_host {
        Some(h) => h,
        None => match host_header {
            Some(v) => v,
            None => Seq::empty(),
        },
    };
    match port {
        Some(p) => h + ":"@ + dec(p as nat),
        None => h,
    }
}

/// The destination with the request query appended: after `?` when the
/// destination has none, after `&` when it has one, and directly when it
/// already ends in `?` or `&`.
pub open spec fn with_query(dest: Seq<char>, query: Option<Seq<char>>) -> Seq<char> {
    match query {
        None => dest,
        Some(q) => if dest.len() > 0 && (dest.last() == '?' || dest.last() == '&') {
            dest + q
        } else if dest.contains('?') {
            dest + "&"@ + q
        } else {
            dest + "?"@ + q
        },
    }
}

/// The answer to a request that a redirect entry applies to.
#[derive(Debug, Clone, PartialEq, Eq)]
pub enum RedirectOutcome {
    /// Redirect with this status to this location.
    Redirect {
        /// The redirect status.
        status: u16,
        /// The `Location` header value.
        location: String,
    },
    /// The destination could not be made: answer 500 Internal Server
    /// Error.
    ServerError,
}

/// The outcome for a request whose host and path are given: `None` when no
/// entry applies, `Some(Ok((status, location)))` for a redirect and
/// `Some(Err(()))` for a server error.
pub open spec fn redirect_outcome(
    v: Seq<Redirects>,
    host: Seq<char>,
    path: Seq<char>,
    query: Option<Seq<char>>,
) -> Option<Result<(u16, Seq<char>), ()>> {
    match first_redirect(v, host, path) {
        None => None,
        Some(i) => match replace_placeholders_spec(path, v[i].source@, v[i].destination@) {
            Err(_) => Some(Err(())),
            Ok(dest) => if is_header_value(with_query(dest, query)) {
                Some(Ok((v[i].kind, with_query(dest, query))))
            } else {
                Some(Err(()))
            },
        },
    }
}

/// The number of bytes of a text's UTF-8 encoding.
pub open spec fn utf8_len(s: Seq<char>) -> nat {
    vstd::utf8::encode_utf8(s).len()
}

/// What the redirects step answers a request.
pub open spec fn redirects_spec(
    redirects: Option<Seq<Redirects>>,
    path: Seq<char>,
    uri_host: Option<Seq<char>>,
    uri_port: Option<u16>,
    host_header: Option<Seq<char>>,
    query: Option<Seq<char>>,
) -> Option<Result<(u16, Seq<char>), ()>> {
    match redirects {
        None => None,
        Some(v) => if utf8_len(path) > MAX_URI_LEN_FOR_REGEX {
            None
        } else {
            redirect_outcome(v, redirect_host(uri_host, host_header, uri_port), path, query)
        },
    }
}

/// Whether a text contains a character.
fn contains_char(s: &str, c: char) -> (r: bool)
    ensures
        r == s@.contains(c),
{
    let v = chars_of(s);
    let mut i: usize = 0;
    while i < v.len()
        invariant
            i <= v@.len(),
            v@ == s@,
            forall|j: int| 0 <= j < i ==> v@[j] != c,
        decreases v@.len() - i,
    {
        if v[i] == c {
            assert(v@[i as int] == c);
            return true;
        }
        i = i + 1;
    }
    false
}

/// Appends the request query to a redirect destination.
pub fn append_query(dest: String, query: Option<&str>) -> (r: String)
    ensures
        r@ == with_query(dest@, str_view(query)),
{
    let q = match query {
        None => {
            return dest;
        },
        Some(q) => q,
    };
    let v = chars_of(dest.as_str());
    let n = v.len();
    let mut out = dest;
    if n > 0 && (v[n - 1] == '?' || v[n - 1] == '&') {
    } else if contains_char(out.as_str(), '?') {
        out.append("&");
    } else {
        out.append("?");
    }
    out.append(q);
    out
}

/// Decides the redirect of a request from its path, URI host and port,
/// `Host` header and query.
pub fn pre_process(
    redirects: Option<&[Redirects]>,
    uri_path: &str,
    uri_host: Option<&str>,
    uri_port: Option<u16>,
    host_header: Option<&str>,
    query: Option<&str>,
) -> (r: Option<RedirectOutcome>)
    ensures
        match redirects_spec(
            match redirects {
                Some(v) => Some(v@),
                None => None,
            },
            uri_path@,
            str_view(uri_host),
            uri_port,
            str_view(host_header),
            str_view(query),
        ) {
            None => r is None,
            Some(Err(())) => r == Some(RedirectOutcome::ServerError),
            Some(Ok((status, loc))) => r matches Some(RedirectOutcome::Redirect { status: s, location }) && s
                == status && location@ == loc,
        },
{
    let v = match redirects {
        None => {
            return None;
        },
        Some(v) => v,
    };
    if uri_path.as_bytes().len() > MAX_URI_LEN_FOR_REGEX {
        return None;
    }
    let mut host = match uri_host {
        Some(h) => String::from_str(h),
        None => match host_header {
            Some(h) => String::from_str(h),
            None => String::new(),
        },
    };
    if let Some(port) = uri_port {
        host.append(":");
        push_dec(&mut host, port as u64);
    }
    assert(host@ =~= redirect_host(str_view(uri_host), str_view(host_header), uri_port));
    let matched = match get_redirection(host.as_str(), uri_path, Some(v)) {
        None => {
            return None;
        },
        Some(m) => m,
    };
    let dest = match replace_placeholders(uri_path, matched.source.as_str(), matched.destination.as_str()) {
        Err(_) => {
            return Some(RedirectOutcome::ServerError);
        },
        Ok(d) => d,
    };
    let location = append_query(dest, query);
    if !header_value_ok(location.as_str()) {
        return Some(RedirectOutcome::ServerError);
    }
    Some(RedirectOutcome::Redirect { status: matched.kind, location })
}

} // verus!
