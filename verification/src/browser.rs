//! The URL of the server that is opened in a web browser.
use vstd::prelude::*;

use crate::text::chars_of;

verus! {

/// An IP address.
#[derive(Debug, Clone, Copy, PartialEq, Eq, Structural)]
pub enum IpAddress {
    /// An IPv4 address, by its four octets.
    V4(u8, u8, u8, u8),
    /// An IPv6 address, by its eight 16-bit groups.
    V6(u16, u16, u16, u16, u16, u16, u16, u16),
}

/// Whether an address is the unspecified one (all zeros).
pub open spec fn is_unspecified(ip: IpAddress) -> bool {
    match ip {
        IpAddress::V4(a, b, c, d) => a == 0 && b == 0 && c == 0 && d == 0,
        IpAddress::V6(a, b, c, d, e, f, g, h) => a == 0 && b == 0 && c == 0 && d == 0 && e == 0
            && f == 0 && g == 0 && h == 0,
    }
}

/// The address a browser can reach a server bound to `ip` at: the loopback
/// address of the same family in place of the unspecified address.
pub open spec fn browser_ip(ip: IpAddress) -> IpAddress {
    if is_unspecified(ip) {
        match ip {
            IpAddress::V4(..) => IpAddress::V4(127, 0, 0, 1),
            IpAddress::V6(..) => IpAddress::V6(0, 0, 0, 0, 0, 0, 0, 1),
        }
    } else {
        ip
    }
}

/// Replaces the unspecified address by the loopback address.
pub fn loopback_if_unspecified(ip: IpAddress) -> (r: IpAddress)
    ensures
        r == browser_ip(ip),
{
    match ip {
        IpAddress::V4(0, 0, 0, 0) => IpAddress::V4(127, 0, 0, 1),
        IpAddress::V6(0, 0, 0, 0, 0, 0, 0, 0) => IpAddress::V6(0, 0, 0, 0, 0, 0, 0, 1),
        _ => ip,
    }
}

/// The URL for a scheme, a socket address (as text) and an optional path,
/// which gets a leading `/` when it has none; without a path the URL ends
/// in `/`.
pub open spec fn browser_url_spec(scheme: Seq<char>, addr: Seq<char>, path: Option<Seq<char>>) -> Seq<
    char,
> {
    match path {
        Some(p) => if p.len() > 0 && p[0] == '/' {
            scheme + "://"@ + addr + p
        } else {
            scheme + "://"@ + addr + "/"@ + p
        },
        None => scheme + "://"@ + addr + "/"@,
    }
}

/// Builds the URL to open in a browser.
pub fn browser_url(scheme: &str, addr: &str, path: Option<&str>) -> (r: String)
    ensures
        r@ == browser_url_spec(
            scheme@,
            addr@,
            match path {
                Some(p) => Some(p@),
                None => None,
            },
        ),
{
    let mut s = String::from_str(scheme);
    s.append("://");
    s.append(addr);
    match path {
        Some(p) => {
            let v = chars_of(p);
            if v.len() > 0 && v[0] == '/' {
                s.append(p);
            } else {
                s.append("/");
                s.append(p);
            }
        },
        None => {
            s.append("/");
        },
    }
    s
}

} // verus!
