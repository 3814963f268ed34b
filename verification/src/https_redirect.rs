//! Redirection of plain HTTP requests to HTTPS.
use vstd::prelude::*;

use crate::http_ext::{authority_host, header_value_ok, is_header_value, parse_authority_host, str_view};
use crate::numfmt::{dec, push_dec};
use crate::text::str_eq;

verus! {

/// Options of the HTTPS redirect.
pub struct RedirectOpts {
    /// HTTPS hostname to redirect to.
    pub https_hostname: String,
    /// HTTPS hostname port to redirect to.
    pub https_port: u16,
    /// Hostnames or IPs to redirect from.
    pub allowed_hosts: Vec<String>,
}

/// The status of a successful HTTPS redirect: 301 Moved Permanently.
pub const MOVED_PERMANENTLY: u16 = 301;

/// The status of a refused HTTPS redirect: 400 Bad Request.
pub const BAD_REQUEST: u16 = 400;

/// The characters of each string.
pub open spec fn views(v: Seq<String>) -> Seq<Seq<char>> {
    v.map_values(|s: String| s@)
}

/// The HTTPS location of a request URI.
pub open spec fn https_location(hostname: Seq<char>, port: u16, uri: Seq<char>) -> Seq<char> {
    "https://"@ + hostname + ":"@ + dec(port as nat) + uri
}

/// What `redirect_to_https` answers: the location to redirect to with a
/// 301, or the status 400 when the request has no usable `Host` header,
/// its host is not allowed, or the location is no valid header value.
pub open spec fn https_redirect_spec(
    host_header: Option<Seq<char>>,
    uri: Seq<char>,
    hostname: Seq<char>,
    port: u16,
    allowed: Seq<Seq<char>>,
) -> Result<Seq<char>, u16> {
    match host_header {
        None => Err(400),
        Some(v) => match authority_host(v) {
            None => Err(400),
            Some(h) => if !allowed.contains(h) {
                Err(400)
            } else if !is_header_value(https_location(hostname, port, uri)) {
                Err(400)
            } else {
                Ok(https_location(hostname, port, uri))
            },
        },
    }
}

/// Redirects a request to its HTTPS location, given its `Host` header
/// (if any) and its URI: `Ok(location)` goes with 301 Moved Permanently,
/// `Err(400)` refuses the request.
pub fn redirect_to_https(host_header: Option<&str>, uri: &str, opts: &RedirectOpts) -> (r: Result<
    String,
    u16,
>)
    ensures
        match https_redirect_spec(
            str_view(host_header),
            uri@,
            opts.https_hostname@,
            opts.https_port,
            views(opts.allowed_hosts@),
        ) {
            Ok(loc) => r matches Ok(s) && s@ == loc,
            Err(code) => r == Err::<String, u16>(code),
        },
{
    let v = match host_header {
        None => {
            return Err(BAD_REQUEST);
        },
        Some(v) => v,
    };
    let host = match parse_authority_host(v) {
        None => {
            return Err(BAD_REQUEST);
        },
        Some(h) => h,
    };
    let ghost allowed = views(opts.allowed_hosts@);
    let mut i: usize = 0;
    let mut found = false;
    while i < opts.allowed_hosts.len()
        invariant
            i <= opts.allowed_hosts@.len(),
            allowed == views(opts.allowed_hosts@),
            found <==> exists|j: int| 0 <= j < i && #[trigger] allowed[j] == host@,
        decreases opts.allowed_hosts@.len() - i,
    {
        let same = str_eq(opts.allowed_hosts[i].as_str(), host.as_str());
        assert(allowed[i as int] == opts.allowed_hosts@[i as int]@);
        found = found || same;
        i = i + 1;
    }
    if !found {
        return Err(BAD_REQUEST);
    }
    let mut url = String::from_str("https://");
    url.append(opts.https_hostname.as_str());
    url.append(":");
    push_dec(&mut url, opts.https_port as u64);
    url.append(uri);
    assert(url@ =~= https_location(opts.https_hostname@, opts.https_port, uri@));
    if !header_value_ok(url.as_str()) {
        return Err(BAD_REQUEST);
    }
    Ok(url)
}

/// A request whose `Host` header names any of the allowed hosts, wherever
/// it stands in the list, is redirected to `https://<hostname>:<port>` and
/// its URI (when that is a valid header value); a host that equals none of
/// the allowed hosts is refused with 400, as is a request without a
/// readable `Host` header.
pub proof fn lemma_any_allowed_host_is_redirected(
    host_header: Seq<char>,
    uri: Seq<char>,
    hostname: Seq<char>,
    port: u16,
    allowed: Seq<Seq<char>>,
    k: int,
)
    ensures
        ({
            &&& authority_host(host_header) matches Some(h)
            &&& 0 <= k < allowed.len() && allowed[k] == h
            &&& is_header_value("https://"@ + hostname + ":"@ + dec(port as nat) + uri)
        }) ==> https_redirect_spec(Some(host_header), uri, hostname, port, allowed) == Ok::<
            Seq<char>,
            u16,
        >("https://"@ + hostname + ":"@ + dec(port as nat) + uri),
        (authority_host(host_header) matches Some(h) && forall|j: int|
            0 <= j < allowed.len() ==> #[trigger] allowed[j] != h) ==> https_redirect_spec(
            Some(host_header),
            uri,
            hostname,
            port,
            allowed,
        ) == Err::<Seq<char>, u16>(400),
        authority_host(host_header) is None ==> https_redirect_spec(
            Some(host_header),
            uri,
            hostname,
            port,
            allowed,
        ) == Err::<Seq<char>, u16>(400),
        https_redirect_spec(None, uri, hostname, port, allowed) == Err::<Seq<char>, u16>(400),
{
}

} // verus!

