//! URL rewrites: the first configured entry whose source pattern matches
//! a request path either redirects the request or rewrites its URI to the
//! destination, with the pattern's captures filled into the destination's
//! `$N` placeholders. Patterns are matched with `regex`.
use vstd::prelude::*;

use crate::http_ext::{
    authority_host, header_value_ok, is_header_value, parse_authority_host, str_view,
};
use crate::numfmt::{dec, push_dec};
use crate::redirects::{PlaceholderError, SourceError};
use crate::settings::RedirectsKind;
use crate::text::{chars_of, string_of};
use crate::url_patterns::{fill_placeholders, fill_placeholders_spec, opt_views, source_regex, source_regex_of};

verus! {

/// Whether a `regex` pattern compiles.
pub uninterp spec fn regex_compiles(pattern: Seq<char>) -> bool;

/// Whether a compiled `regex` pattern matches somewhere in a text.
pub uninterp spec fn regex_match(pattern: Seq<char>, text: Seq<char>) -> bool;

/// The groups of the leftmost-first match of a compiled `regex` pattern in
/// a text (`None` for a group that did not participate).
pub uninterp spec fn regex_captures(pattern: Seq<char>, text: Seq<char>) -> Seq<Option<Seq<char>>>;

/// `regex::Regex::new`: whether the pattern compiles.
#[verifier::external_body]
fn compiles(pattern: &str) -> (r: bool)
    ensures
        r == regex_compiles(pattern@),
{
    regex::Regex::new(pattern).is_ok()
}

/// `regex::Regex::new(pattern)`, then `Regex::is_match(text)`.
#[verifier::external_body]
fn is_match(pattern: &str, text: &str) -> (r: Option<bool>)
    ensures
        r is Some <==> regex_compiles(pattern@),
        r matches Some(b) ==> b == regex_match(pattern@, text@),
{
    regex::Regex::new(pattern).ok().map(|re| re.is_match(text))
}

/// `regex::Regex::new(pattern)`, then `Regex::captures(text)`, each group
/// as its text: there are captures exactly when the pattern matches.
#[verifier::external_body]
fn captures(pattern: &str, text: &str) -> (r: Option<Option<Vec<Option<String>>>>)
    ensures
        r is Some <==> regex_compiles(pattern@),
        r matches Some(c) ==> (c is Some <==> regex_match(pattern@, text@)),
        r matches Some(Some(c)) ==> opt_views(c@) == regex_captures(pattern@, text@),
{
    let re = regex::Regex::new(pattern).ok()?;
    Some(
        re.captures(text).map(
            |caps| (0..caps.len()).map(|i| caps.get(i).map(|m| m.as_str().to_string())).collect(),
        ),
    )
}

/// A rewrite entry.
#[derive(Debug, Clone)]
pub struct Rewrites {
    /// The regular expression of request paths it applies to.
    pub source: String,
    /// The destination, with `$N` placeholders for the captures.
    pub destination: String,
    /// Redirect to the destination with this kind, instead of rewriting.
    pub redirect: Option<RedirectsKind>,
}

/// The rewrite entry of a settings entry: its glob source is turned into
/// the regular expression that is matched.
pub open spec fn rewrite_entry_spec(glob: Seq<char>) -> Result<Seq<char>, SourceError> {
    match source_regex(glob) {
        None => Err(SourceError::Glob),
        Some(re) => if regex_compiles(re) {
            Ok(re)
        } else {
            Err(SourceError::Regex)
        },
    }
}

/// Builds a rewrite entry from its settings values.
pub fn rewrite_entry(source: &str, destination: String, redirect: Option<RedirectsKind>) -> (r: Result<
    Rewrites,
    SourceError,
>)
    ensures
        match rewrite_entry_spec(source@) {
            Ok(re) => r matches Ok(e) && e.source@ == re && e.destination == destination
                && e.redirect == redirect,
            Err(k) => r matches Err(x) && x == k,
        },
{
    let re = match source_regex_of(source) {
        None => {
            return Err(SourceError::Glob);
        },
        Some(re) => re,
    };
    if !compiles(re.as_str()) {
        return Err(SourceError::Regex);
    }
    Ok(Rewrites { source: re, destination, redirect })
}

/// Whether a rewrite entry applies to a path.
pub open spec fn rewrite_applies(e: Rewrites, path: Seq<char>) -> bool {
    regex_compiles(e.source@) && regex_match(e.source@, path)
}

/// The index of the first entry that applies.
pub open spec fn first_rewrite(v: Seq<Rewrites>, path: Seq<char>) -> Option<int>
    decreases v.len(),
{
    if v.len() == 0 {
        None
    } else if rewrite_applies(v[0], path) {
        Some(0)
    } else {
        match first_rewrite(v.drop_first(), path) {
            Some(i) => Some(i + 1),
            None => None,
        }
    }
}

/// The entry that `first_rewrite` finds applies, and no entry before it
/// does; when it finds none, no entry applies.
pub proof fn lemma_first_rewrite(v: Seq<Rewrites>, path: Seq<char>)
    ensures
        first_rewrite(v, path) matches Some(i) ==> 0 <= i < v.len() && rewrite_applies(v[i], path)
            && forall|j: int| 0 <= j < i ==> !rewrite_applies(#[trigger] v[j], path),
        first_rewrite(v, path) is None ==> forall|j: int|
            0 <= j < v.len() ==> !rewrite_applies(#[trigger] v[j], path),
    decreases v.len(),
{
    if v.len() > 0 {
        lemma_first_rewrite(v.drop_first(), path);
        assert forall|j: int| 1 <= j < v.len() implies v[j] == v.drop_first()[j - 1] by {}
    }
}

/// The first rewrite entry whose source matches the path.
#[verifier::loop_isolation(false)]
pub fn rewrite_uri_path<'a>(uri_path: &str, rewrites_opts: Option<&'a [Rewrites]>) -> (r: Option<
    &'a Rewrites,
>)
    ensures
        match rewrites_opts {
            None => r is None,
            Some(v) => match first_rewrite(v@, uri_path@) {
                Some(i) => r == Some(&v@[i]),
                None => r is None,
            },
        },
{
    let v = match rewrites_opts {
        None => {
            return None;
        },
        Some(v) => v,
    };
    assert(v@.skip(0) =~= v@);
    let mut i: usize = 0;
    while i < v.len()
        invariant
            i <= v@.len(),
            first_rewrite(v@, uri_path@) == match first_rewrite(v@.skip(i as int), uri_path@) {
                Some(j) => Some(j + i),
                None => None,
            },
        decreases v@.len() - i,
    {
        assert(v@.skip(i as int)[0] == v@[i as int]);
        assert(v@.skip(i as int).drop_first() =~= v@.skip(i + 1));
        if is_match(v[i].source.as_str(), uri_path) == Some(true) {
            return Some(&v[i]);
        }
        i = i + 1;
    }
    assert(v@.skip(i as int) =~= Seq::<Rewrites>::empty());
    None
}

/// The destination with its placeholders filled from the captures of the
/// pattern in the request path.
pub open spec fn replace_placeholders_spec(orig: Seq<char>, pattern: Seq<char>, dest: Seq<char>) -> Result<
    Seq<char>,
    PlaceholderError,
> {
    if !regex_compiles(pattern) || !regex_match(pattern, orig) {
        Err(PlaceholderError::NoMatch)
    } else {
        match fill_placeholders_spec(regex_captures(pattern, orig), dest) {
            Some(s) => Ok(s),
            None => Err(PlaceholderError::Replace),
        }
    }
}

/// Fills the `$N` placeholders of a destination with the captures of a
/// pattern in the request path (`$0` is the whole match).
pub fn replace_placeholders(orig_uri: &str, pattern: &str, dest_uri: &str) -> (r: Result<
    String,
    PlaceholderError,
>)
    ensures
        match replace_placeholders_spec(orig_uri@, pattern@, dest_uri@) {
            Ok(s) => r matches Ok(x) && x@ == s,
            Err(e) => r matches Err(x) && x == e,
        },
{
    let caps = match captures(pattern, orig_uri) {
        Some(Some(c)) => c,
        _ => {
            return Err(PlaceholderError::NoMatch);
        },
    };
    match fill_placeholders(&caps, dest_uri) {
        Some(s) => Ok(s),
        None => Err(PlaceholderError::Replace),
    }
}

/// The scheme, authority and path-and-query that `http::Uri` parsing finds
/// in a text, or nothing when it is not a valid URI.
pub uninterp spec fn uri_parts(s: Seq<char>) -> Option<
    (Option<Seq<char>>, Option<Seq<char>>, Option<Seq<char>>),
>;

/// The text of the `http::Uri` assembled from a scheme, an authority and a
/// path-and-query, or nothing when they do not make a valid URI.
pub uninterp spec fn uri_assembled(
    scheme: Option<Seq<char>>,
    authority: Option<Seq<char>>,
    path_and_query: Option<Seq<char>>,
) -> Option<Seq<char>>;

/// The port that `http::uri::Authority` parsing finds in a text, if any.
pub uninterp spec fn authority_port(value: Seq<char>) -> Option<u16>;

/// `http::Uri::from_str`, then `Uri::into_parts`, each part as its text.
#[verifier::external_body]
fn parse_uri_parts(s: &str) -> (r: Option<(Option<String>, Option<String>, Option<String>)>)
    ensures
        match r {
            Some((a, b, c)) => uri_parts(s@) == Some((str_opt(a), str_opt(b), str_opt(c))),
            None => uri_parts(s@) is None,
        },
{
    let parts = s.parse::<http::Uri>().ok()?.into_parts();
    Some((
        parts.scheme.map(|x| x.as_str().to_string()),
        parts.authority.map(|x| x.as_str().to_string()),
        parts.path_and_query.map(|x| x.as_str().to_string()),
    ))
}

/// The parts parsed from their texts into `http::uri::Parts`, then
/// `Uri::from_parts`, displayed.
#[verifier::external_body]
fn assemble_uri(scheme: Option<&str>, authority: Option<&str>, path_and_query: Option<&str>) -> (r:
    Option<String>)
    ensures
        match r {
            Some(u) => uri_assembled(str_view(scheme), str_view(authority), str_view(path_and_query))
                == Some(u@),
            None => uri_assembled(
                str_view(scheme),
                str_view(authority),
                str_view(path_and_query),
            ) is None,
        },
{
    let mut parts = http::uri::Parts::default();
    parts.scheme = match scheme {
        Some(x) => Some(x.parse().ok()?),
        None => None,
    };
    parts.authority = match authority {
        Some(x) => Some(x.parse().ok()?),
        None => None,
    };
    parts.path_and_query = match path_and_query {
        Some(x) => Some(x.parse().ok()?),
        None => None,
    };
    http::Uri::from_parts(parts).ok().map(|u| u.to_string())
}

/// `http::uri::Authority::from_str`, then `Authority::port_u16`.
#[verifier::external_body]
fn parse_authority_port(value: &str) -> (r: Option<u16>)
    ensures
        r == authority_port(value@),
{
    value.parse::<http::uri::Authority>().ok().and_then(|a| a.port_u16())
}

/// The characters of an optional string.
pub open spec fn str_opt(s: Option<String>) -> Option<Seq<char>> {
    match s {
        Some(t) => Some(t@),
        None => None,
    }
}

/// The query of a path-and-query: what follows its first `?`, if any.
pub open spec fn query_of(pq: Seq<char>) -> Option<Seq<char>> {
    if pq.contains('?') {
        let i = choose|i: int| 0 <= i < pq.len() && pq[i] == '?' && forall|j: int| 0 <= j < i ==> pq[j] != '?';
        Some(pq.skip(i + 1))
    } else {
        None
    }
}

/// Finds the query of a path-and-query.
fn query_in(pq: &str) -> (r: Option<String>)
    ensures
        match r {
            Some(q) => query_of(pq@) == Some(q@),
            None => query_of(pq@) is None,
        },
{
    let v = chars_of(pq);
    let n: usize = v.len();
    let mut i: usize = 0;
    while i < n
        invariant
            n == v@.len(),
            v@ == pq@,
            i <= n,
            forall|j: int| 0 <= j < i ==> v@[j] != '?',
        decreases n - i,
    {
        if v[i] == '?' {
            proof {
                let w = choose|w: int| 0 <= w < pq@.len() && pq@[w] == '?' && forall|j: int| 0 <= j < w ==> pq@[j] != '?';
                assert(pq@[i as int] == '?');
                assert(w == i) by {
                    if w < i {
                        assert(v@[w] != '?');
                    } else if w > i {
                        assert(pq@[i as int] != '?');
                    }
                }
                assert(v@.subrange(i + 1, n as int) =~= pq@.skip(i + 1));
            }
            return Some(string_of(v.as_slice(), i + 1, n));
        }
        i = i + 1;
    }
    None
}

/// The URI a request is rewritten to: the parts of the destination, each
/// missing one taken from the request URI, and the request query added
/// when the destination has none; nothing when either URI is invalid.
pub open spec fn merge_uris_spec(
    scheme: Option<Seq<char>>,
    authority: Option<Seq<char>>,
    path_and_query: Option<Seq<char>>,
    new_uri: Seq<char>,
) -> Option<Seq<char>> {
    match uri_parts(new_uri) {
        None => None,
        Some((s, a, p)) => {
            let s2 = if s is Some { s } else { scheme };
            let a2 = if a is Some { a } else { authority };
            let p2 = if p is Some { p } else { path_and_query };
            let p3 = match (p2, path_and_query) {
                (Some(x), Some(orig)) => if query_of(x) is None && query_of(orig) is Some {
                    Some(x + "?"@ + query_of(orig).unwrap())
                } else {
                    Some(x)
                },
                _ => p2,
            };
            uri_assembled(s2, a2, p3)
        },
    }
}

/// Merges a rewrite destination into the request URI, given by its
/// scheme, authority and path-and-query.
pub fn merge_uris(
    scheme: Option<&str>,
    authority: Option<&str>,
    path_and_query: Option<&str>,
    new_uri: &str,
) -> (r: Option<String>)
    ensures
        match r {
            Some(u) => merge_uris_spec(str_view(scheme), str_view(authority), str_view(path_and_query), new_uri@)
                == Some(u@),
            None => merge_uris_spec(
                str_view(scheme),
                str_view(authority),
                str_view(path_and_query),
                new_uri@,
            ) is None,
        },
{
    let (s, a, p) = match parse_uri_parts(new_uri) {
        None => {
            return None;
        },
        Some(parts) => parts,
    };
    let s2: Option<String> = match s {
        Some(x) => Some(x),
        None => match scheme {
            Some(x) => Some(String::from_str(x)),
            None => None,
        },
    };
    let a2: Option<String> = match a {
        Some(x) => Some(x),
        None => match authority {
            Some(x) => Some(String::from_str(x)),
            None => None,
        },
    };
    let p2: Option<String> = match p {
        Some(x) => Some(x),
        None => match path_and_query {
            Some(x) => Some(String::from_str(x)),
            None => None,
        },
    };
    let p3: Option<String> = match (p2, path_and_query) {
        (Some(x), Some(orig)) => {
            let own = query_in(x.as_str());
            let theirs = query_in(orig);
            match (own, theirs) {
                (None, Some(q)) => {
                    let mut y = x;
                    y.append("?");
                    y.append(q.as_str());
                    Some(y)
                },
                _ => Some(x),
            }
        },
        (p2, _) => p2,
    };
    let r = assemble_uri(
        match &s2 {
            Some(x) => Some(x.as_str()),
            None => None,
        },
        match &a2 {
            Some(x) => Some(x.as_str()),
            None => None,
        },
        match &p3 {
            Some(x) => Some(x.as_str()),
            None => None,
        },
    );
    r
}

/// The answer to a request that a rewrite entry applies to.
#[derive(Debug, Clone, PartialEq, Eq)]
pub enum RewriteOutcome {
    /// Redirect with this status to this location.
    Redirect {
        /// The redirect status.
        status: u16,
        /// The `Location` header value.
        location: String,
    },
    /// Serve the request as if it were for this URI.
    Rewrite {
        /// The new request URI.
        uri: String,
        /// The new `Host` header value, when the new URI names a host.
        host: Option<String>,
    },
    /// The destination could not be made: answer 500 Internal Server
    /// Error.
    ServerError,
}

/// The `Host` header of a rewritten request whose URI has this authority:
/// its host, and its port after `:` when it has one.
pub open spec fn rewritten_host(authority: Seq<char>) -> Option<Seq<char>> {
    match authority_host(authority) {
        None => None,
        Some(h) => {
            let v = match authority_port(authority) {
                Some(p) => h + ":"@ + dec(p as nat),
                None => h,
            };
            if is_header_value(v) {
                Some(v)
            } else {
                None
            }
        },
    }
}

/// Computes the `Host` header of a rewritten request.
fn host_of_authority(authority: &str) -> (r: Option<String>)
    ensures
        match r {
            Some(h) => rewritten_host(authority@) == Some(h@),
            None => rewritten_host(authority@) is None,
        },
{
    let mut h = match parse_authority_host(authority) {
        None => {
            return None;
        },
        Some(h) => h,
    };
    if let Some(port) = parse_authority_port(authority) {
        h.append(":");
        push_dec(&mut h, port as u64);
    }
    if header_value_ok(h.as_str()) {
        Some(h)
    } else {
        None
    }
}

/// The authority of the rewritten URI: the destination's, else the
/// request URI's.
pub open spec fn merged_authority(authority: Option<Seq<char>>, dest: Seq<char>) -> Option<Seq<char>> {
    match uri_parts(dest) {
        Some((_, Some(a), _)) => Some(a),
        _ => authority,
    }
}

/// The status of a redirect kind.
pub open spec fn kind_status(kind: RedirectsKind) -> u16 {
    match kind {
        RedirectsKind::Permanent => 301,
        RedirectsKind::Temporary => 302,
    }
}

/// Whether `r` is what the rewrites step answers a request with the given
/// path and URI parts.
pub open spec fn rewrite_answer(
    r: Option<RewriteOutcome>,
    rewrites: Option<Seq<Rewrites>>,
    uri_path: Seq<char>,
    scheme: Option<Seq<char>>,
    authority: Option<Seq<char>>,
    path_and_query: Option<Seq<char>>,
) -> bool {
        match rewrites {
            None => r is None,
            Some(v) => match first_rewrite(v, uri_path) {
                None => r is None,
                Some(i) => match replace_placeholders_spec(
                    uri_path,
                    v[i].source@,
                    v[i].destination@,
                ) {
                    Err(_) => r == Some(RewriteOutcome::ServerError),
                    Ok(dest) => match v[i].redirect {
                        Some(kind) => if is_header_value(dest) {
                            r matches Some(RewriteOutcome::Redirect { status, location })
                                && status == kind_status(kind) && location@ == dest
                        } else {
                            r == Some(RewriteOutcome::ServerError)
                        },
                        None => match merge_uris_spec(
                            scheme,
                            authority,
                            path_and_query,
                            dest,
                        ) {
                            None => r == Some(RewriteOutcome::ServerError),
                            Some(u) => r matches Some(RewriteOutcome::Rewrite { uri, host })
                                && uri@ == u && str_opt(host) == match merged_authority(
                                authority,
                                dest,
                            ) {
                                Some(a) => rewritten_host(a),
                                None => None,
                            },
                        },
                    },
                },
            },
        }
}

/// Decides the rewrite of a request from its path and the scheme,
/// authority and path-and-query of its URI.
pub fn pre_process(
    rewrites: Option<&[Rewrites]>,
    uri_path: &str,
    scheme: Option<&str>,
    authority: Option<&str>,
    path_and_query: Option<&str>,
) -> (r: Option<RewriteOutcome>)
    ensures
        rewrite_answer(
            r,
            match rewrites {
                Some(v) => Some(v@),
                None => None,
            },
            uri_path@,
            str_view(scheme),
            str_view(authority),
            str_view(path_and_query),
        ),
{
    let matched = match rewrite_uri_path(uri_path, rewrites) {
        None => {
            return None;
        },
        Some(m) => m,
    };
    let dest = match replace_placeholders(uri_path, matched.source.as_str(), matched.destination.as_str()) {
        Err(_) => {
            return Some(RewriteOutcome::ServerError);
        },
        Ok(d) => d,
    };
    match matched.redirect {
        Some(kind) => {
            if !header_value_ok(dest.as_str()) {
                return Some(RewriteOutcome::ServerError);
            }
            Some(RewriteOutcome::Redirect { status: kind.status(), location: dest })
        },
        None => {
            let uri = match merge_uris(scheme, authority, path_and_query, dest.as_str()) {
                None => {
                    return Some(RewriteOutcome::ServerError);
                },
                Some(u) => u,
            };
            let new_authority: Option<String> = match parse_uri_parts(dest.as_str()) {
                Some((_, Some(a), _)) => Some(a),
                _ => match authority {
                    Some(a) => Some(String::from_str(a)),
                    None => None,
                },
            };
            let host = match &new_authority {
                Some(a) => host_of_authority(a.as_str()),
                None => None,
            };
            Some(RewriteOutcome::Rewrite { uri, host })
        },
    }
}

} // verus!
