//! Prometheus metrics decisions: which requests the metrics endpoint
//! answers, and the labels a request is recorded under.
use vstd::prelude::*;

use crate::http_ext::{is_allowed_method, Method, MethodExt};
use crate::settings::VirtualHosts;
use crate::text::str_eq;

verus! {

/// The label of methods and hosts that are not tracked one by one.
pub const OTHER_LABEL: &'static str = "other";

/// The path of the metrics endpoint.
pub const METRICS_PATH: &'static str = "/metrics";

/// The class of a status code.
pub open spec fn status_class_spec(code: u16) -> Seq<char> {
    if code / 100 == 1 {
        "1xx"@
    } else if code / 100 == 2 {
        "2xx"@
    } else if code / 100 == 3 {
        "3xx"@
    } else if code / 100 == 4 {
        "4xx"@
    } else {
        "5xx"@
    }
}

/// The `status` label of a status code: `1xx` to `4xx` by its hundreds,
/// `5xx` for all others.
pub fn status_class(code: u16) -> (r: &'static str)
    ensures
        r@ == status_class_spec(code),
{
    match code / 100 {
        1 => "1xx",
        2 => "2xx",
        3 => "3xx",
        4 => "4xx",
        _ => "5xx",
    }
}

/// The `method` label: the name of a supported method, else `other`, so
/// that unsupported methods cannot mint unbounded series.
pub open spec fn method_label_spec(m: Method) -> Seq<char> {
    match m {
        Method::Get => "GET"@,
        Method::Head => "HEAD"@,
        Method::Options => "OPTIONS"@,
        _ => "other"@,
    }
}

/// The `method` label of a request method.
pub fn method_label(m: &Method) -> (r: &'static str)
    ensures
        r@ == method_label_spec(*m),
        is_allowed_method(*m) <==> r@ != "other"@,
{
    proof {
        reveal_strlit("GET");
        reveal_strlit("HEAD");
        reveal_strlit("OPTIONS");
        reveal_strlit("other");
    }
    if !m.is_allowed() {
        return OTHER_LABEL;
    }
    match m {
        Method::Get => "GET",
        Method::Head => "HEAD",
        _ => "OPTIONS",
    }
}

/// The `host` label: a configured virtual host equal to the request host,
/// else `other`.
pub open spec fn host_label_spec(host: Option<Seq<char>>, vhosts: Option<Seq<Seq<char>>>) -> Seq<
    char,
> {
    match (host, vhosts) {
        (Some(h), Some(vs)) => if vs.contains(h) {
            h
        } else {
            "other"@
        },
        _ => "other"@,
    }
}

/// The hosts of a list of virtual hosts.
pub open spec fn vhost_names(v: Seq<VirtualHosts>) -> Seq<Seq<char>> {
    v.map_values(|h: VirtualHosts| h.host@)
}

/// The `host` label of a request with the given host (if known), among the
/// configured virtual hosts (if any); unlisted or missing hosts collapse to
/// `other`.
#[verifier::loop_isolation(false)]
pub fn host_label(host: Option<&str>, virtual_hosts: Option<&[VirtualHosts]>) -> (r: String)
    ensures
        r@ == host_label_spec(
            match host {
                Some(h) => Some(h@),
                None => None,
            },
            match virtual_hosts {
                Some(v) => Some(vhost_names(v@)),
                None => None,
            },
        ),
{
    let (h, vs) = match (host, virtual_hosts) {
        (Some(h), Some(vs)) => (h, vs),
        _ => {
            return String::from_str(OTHER_LABEL);
        },
    };
    let ghost names = vhost_names(vs@);
    let mut i: usize = 0;
    while i < vs.len()
        invariant
            i <= vs@.len(),
            names == vhost_names(vs@),
            forall|j: int| 0 <= j < i ==> names[j] != h@,
        decreases vs@.len() - i,
    {
        if str_eq(vs[i].host.as_str(), h) {
            assert(names[i as int] == h@);
            return String::from_str(h);
        }
        i = i + 1;
    }
    assert(!names.contains(h@));
    String::from_str(OTHER_LABEL)
}

/// How the metrics endpoint answers a request: not at all (`None`), with
/// the metrics text (`Some(true)`, for `GET`) or with an empty body
/// (`Some(false)`, for `HEAD`).
pub open spec fn metrics_answer_spec(enabled: bool, path: Seq<char>, m: Method) -> Option<bool> {
    if !enabled || path != "/metrics"@ {
        None
    } else if m is Get {
        Some(true)
    } else if m is Head {
        Some(false)
    } else {
        None
    }
}

/// Decides whether a request is a metrics request, and whether the
/// answer carries the metrics text.
pub fn metrics_answer(enabled: bool, path: &str, m: &Method) -> (r: Option<bool>)
    ensures
        r == metrics_answer_spec(enabled, path@, *m),
{
    if !enabled || !str_eq(path, METRICS_PATH) {
        return None;
    }
    if m.is_get() {
        Some(true)
    } else if m.is_head() {
        Some(false)
    } else {
        None
    }
}

/// The labels a request is recorded under (method, status class, host),
/// or `None` for requests of the metrics endpoint itself, which are not
/// recorded.
pub fn request_labels(
    path: &str,
    m: &Method,
    status: u16,
    host: Option<&str>,
    virtual_hosts: Option<&[VirtualHosts]>,
) -> (r: Option<(&'static str, &'static str, String)>)
    ensures
        path@ == "/metrics"@ <==> r is None,
        r matches Some((ml, sc, hl)) ==> {
            &&& ml@ == method_label_spec(*m)
            &&& sc@ == status_class_spec(status)
            &&& hl@ == host_label_spec(
                match host {
                    Some(h) => Some(h@),
                    None => None,
                },
                match virtual_hosts {
                    Some(v) => Some(vhost_names(v@)),
                    None => None,
                },
            )
        },
{
    if str_eq(path, METRICS_PATH) {
        return None;
    }
    Some((method_label(m), status_class(status), host_label(host, virtual_hosts)))
}

} // verus!

verus! {

/// The `host` label is `other` or one of the configured virtual hosts, so
/// requests cannot mint unbounded series.
pub proof fn lemma_host_label_bounded(host: Option<Seq<char>>, vhosts: Option<Seq<Seq<char>>>)
    ensures
        host_label_spec(host, vhosts) == "other"@ || (vhosts matches Some(vs) && vs.contains(
            host_label_spec(host, vhosts),
        )),
{
}

/// A request host that equals the host of any configured virtual host,
/// wherever it stands in the list, is its own label; a host that equals
/// none of them is labelled `other`, as is a request without a host or a
/// server without virtual hosts.
pub proof fn lemma_host_label_any_listed_host(h: Seq<char>, vhosts: Seq<VirtualHosts>, k: int)
    ensures
        0 <= k < vhosts.len() && vhosts[k].host@ == h ==> host_label_spec(
            Some(h),
            Some(vhost_names(vhosts)),
        ) == h,
        (forall|j: int| 0 <= j < vhosts.len() ==> #[trigger] vhosts[j].host@ != h)
            ==> host_label_spec(Some(h), Some(vhost_names(vhosts))) == "other"@,
        host_label_spec(None, Some(vhost_names(vhosts))) == "other"@,
        host_label_spec(Some(h), None) == "other"@,
{
    let names = vhost_names(vhosts);
    if 0 <= k < vhosts.len() && vhosts[k].host@ == h {
        assert(names[k] == h);
    }
    if forall|j: int| 0 <= j < vhosts.len() ==> #[trigger] vhosts[j].host@ != h {
        assert forall|j: int| 0 <= j < names.len() implies names[j] != h by {
            assert(names[j] == vhosts[j].host@);
        }
    }
}

} // verus!
