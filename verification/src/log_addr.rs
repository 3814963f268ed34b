//! Which client addresses a request is logged with.
use vstd::prelude::*;

use crate::browser::IpAddress;
use crate::health::is_health_endpoint;
use crate::text::{chars_of, split, split_bounds, string_of, trim, trim_bounds};

verus! {

/// What a request is logged with: the remote address, and the texts of
/// the `X-Real-IP` and first `X-Forwarded-For` addresses (read as IP
/// addresses by the logger), at debug level for health checks.
#[derive(Debug, Clone, PartialEq, Eq)]
pub struct RequestAddresses {
    /// The remote address, when it is logged.
    pub remote_ip: Option<IpAddress>,
    /// The trimmed `X-Real-IP` value, when it is logged and trusted.
    pub x_real_ip: Option<String>,
    /// The first, trimmed `X-Forwarded-For` entry, when it is logged and
    /// trusted.
    pub forwarded_for: Option<String>,
    /// Whether the request is a health check, logged at debug level only.
    pub debug_only: bool,
}

/// Whether the proxy headers of a request are trusted: no trusted proxies
/// are configured, or the request comes from one of them.
pub open spec fn is_trusted(trusted_proxies: Seq<IpAddress>, remote: Option<IpAddress>) -> bool {
    trusted_proxies.len() == 0 || (remote matches Some(ip) && trusted_proxies.contains(ip))
}

/// Whether a list holds an address.
fn contains_ip(list: &[IpAddress], ip: IpAddress) -> (r: bool)
    ensures
        r == list@.contains(ip),
{
    let mut i: usize = 0;
    while i < list.len()
        invariant
            i <= list@.len(),
            forall|j: int| 0 <= j < i ==> list@[j] != ip,
        decreases list@.len() - i,
    {
        if list[i] == ip {
            assert(list@[i as int] == ip);
            return true;
        }
        i = i + 1;
    }
    false
}

/// Decides what a request is logged with.
pub fn pre_process(
    log_remote_address: bool,
    log_x_real_ip: bool,
    log_forwarded_for: bool,
    trusted_proxies: &[IpAddress],
    health: bool,
    remote: Option<IpAddress>,
    x_real_ip: Option<&str>,
    forwarded_for: Option<&str>,
    path: &str,
) -> (r: RequestAddresses)
    ensures
        r.remote_ip == (if log_remote_address {
            remote
        } else {
            None
        }),
        match (log_x_real_ip && is_trusted(trusted_proxies@, remote), x_real_ip) {
            (true, Some(v)) => r.x_real_ip matches Some(t) && t@ == trim(v@),
            _ => r.x_real_ip is None,
        },
        match (log_forwarded_for && is_trusted(trusted_proxies@, remote), forwarded_for) {
            (true, Some(v)) => r.forwarded_for matches Some(t) && t@ == trim(split(v@, ',')[0]),
            _ => r.forwarded_for is None,
        },
        r.debug_only == (health && path@ == "/health"@),
{
    let remote_ip = if log_remote_address {
        remote
    } else {
        None
    };
    let trusted = trusted_proxies.len() == 0 || match remote {
        Some(ip) => contains_ip(trusted_proxies, ip),
        None => false,
    };
    assert(trusted == is_trusted(trusted_proxies@, remote));
    let x_real = match (log_x_real_ip && trusted, x_real_ip) {
        (true, Some(v)) => {
            let c = chars_of(v);
            let (a, b) = trim_bounds(c.as_slice(), 0, c.len());
            assert(c@.subrange(0, c@.len() as int) =~= v@);
            Some(string_of(c.as_slice(), a, b))
        },
        _ => None,
    };
    let forwarded = match (log_forwarded_for && trusted, forwarded_for) {
        (true, Some(v)) => {
            let c = chars_of(v);
            let n: usize = c.len();
            assert(c@.subrange(0, n as int) =~= v@);
            let parts = split_bounds(c.as_slice(), 0, n, ',');
            proof {
                crate::text::lemma_split_nonempty(v@, ',');
            }
            let (x, y) = parts[0];
            let (a, b) = trim_bounds(c.as_slice(), x, y);
            Some(string_of(c.as_slice(), a, b))
        },
        _ => None,
    };
    RequestAddresses {
        remote_ip,
        x_real_ip: x_real,
        forwarded_for: forwarded,
        debug_only: health && is_health_endpoint(path),
    }
}

} // verus!
