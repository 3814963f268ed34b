//! Security headers added to every response when enabled.
use vstd::prelude::*;

use crate::text::str_eq;

verus! {

/// The `Strict-Transport-Security` value.
pub const HSTS_VALUE: &'static str = "max-age=63072000; includeSubDomains; preload";

/// The `X-Frame-Options` value.
pub const XFO_VALUE: &'static str = "DENY";

/// The `X-Content-Type-Options` value.
pub const XCTO_VALUE: &'static str = "nosniff";

/// The `Content-Security-Policy` value.
pub const CSP_VALUE: &'static str = "frame-ancestors 'self'";

/// The `Referrer-Policy` value.
pub const RP_VALUE: &'static str = "strict-origin-when-cross-origin";

/// Response headers as (lower-case name, value) pairs.
pub type HeaderPairs = Vec<(String, String)>;

/// The pairs as characters.
pub open spec fn pairs_view(h: Seq<(String, String)>) -> Seq<(Seq<char>, Seq<char>)> {
    h.map_values(|p: (String, String)| (p.0@, p.1@))
}

/// Whether a header has another name.
pub open spec fn not_named(name: Seq<char>) -> spec_fn((Seq<char>, Seq<char>)) -> bool {
    |p: (Seq<char>, Seq<char>)| p.0 != name
}

/// The headers without any of the given name.
pub open spec fn drop_named(h: Seq<(Seq<char>, Seq<char>)>, name: Seq<char>) -> Seq<
    (Seq<char>, Seq<char>),
> {
    h.filter(not_named(name))
}

/// Setting a header: every value it had is dropped and the new one added.
pub open spec fn header_insert(h: Seq<(Seq<char>, Seq<char>)>, name: Seq<char>, value: Seq<char>) -> Seq<
    (Seq<char>, Seq<char>),
> {
    drop_named(h, name).push((name, value))
}

/// Sets a header, replacing the values it had.
pub fn insert_header(headers: &mut HeaderPairs, name: &str, value: &str)
    ensures
        pairs_view(final(headers)@) == header_insert(pairs_view(old(headers)@), name@, value@),
{
    let ghost old_view = pairs_view(headers@);
    let mut kept: HeaderPairs = Vec::new();
    let mut i: usize = 0;
    while i < headers.len()
        invariant
            i <= headers@.len(),
            old_view == pairs_view(headers@),
            pairs_view(kept@) == old_view.take(i as int).filter(not_named(name@)),
        decreases headers@.len() - i,
    {
        proof {
            assert(old_view.take(i + 1) =~= old_view.take(i as int).push(old_view[i as int]));
            old_view.take(i as int).lemma_filter_push(old_view[i as int], not_named(name@));
        }
        if !str_eq(headers[i].0.as_str(), name) {
            let p = (headers[i].0.clone(), headers[i].1.clone());
            kept.push(p);
            assert(pairs_view(kept@) =~= old_view.take(i as int).filter(not_named(name@)).push(
                old_view[i as int],
            ));
        }
        i = i + 1;
    }
    assert(old_view.take(i as int) =~= old_view);
    kept.push((String::from_str(name), String::from_str(value)));
    assert(pairs_view(kept@) =~= header_insert(old_view, name@, value@));
    *headers = kept;
}

/// The security headers and their values.
pub open spec fn security_header_list() -> Seq<(Seq<char>, Seq<char>)> {
    seq![
        ("strict-transport-security"@, HSTS_VALUE@),
        ("x-frame-options"@, XFO_VALUE@),
        ("x-content-type-options"@, XCTO_VALUE@),
        ("content-security-policy"@, CSP_VALUE@),
        ("referrer-policy"@, RP_VALUE@),
    ]
}

/// A header list with the security headers set, in list order.
pub open spec fn with_security_headers(h: Seq<(Seq<char>, Seq<char>)>) -> Seq<(Seq<char>, Seq<char>)> {
    let l = security_header_list();
    header_insert(
        header_insert(
            header_insert(header_insert(header_insert(h, l[0].0, l[0].1), l[1].0, l[1].1), l[2].0, l[2].1),
            l[3].0,
            l[3].1,
        ),
        l[4].0,
        l[4].1,
    )
}

/// Sets the security headers (HSTS, `X-Frame-Options`,
/// `X-Content-Type-Options`, CSP and `Referrer-Policy`) on a response,
/// in that order, each replacing the values it had.
pub fn append_headers(headers: &mut HeaderPairs)
    ensures
        pairs_view(final(headers)@) == with_security_headers(pairs_view(old(headers)@)),
{
    insert_header(headers, "strict-transport-security", HSTS_VALUE);
    insert_header(headers, "x-frame-options", XFO_VALUE);
    insert_header(headers, "x-content-type-options", XCTO_VALUE);
    insert_header(headers, "content-security-policy", CSP_VALUE);
    insert_header(headers, "referrer-policy", RP_VALUE);
}

/// Adds the security headers when they are enabled.
pub fn post_process(enabled: bool, headers: &mut HeaderPairs)
    ensures
        enabled ==> pairs_view(final(headers)@) == with_security_headers(pairs_view(old(headers)@)),
        !enabled ==> final(headers)@ == old(headers)@,
{
    if enabled {
        append_headers(headers);
    }
}

} // verus!

verus! {

/// Headers none of which has the name.
pub open spec fn none_named(h: Seq<(Seq<char>, Seq<char>)>, name: Seq<char>) -> bool {
    forall|i: int| 0 <= i < h.len() ==> #[trigger] h[i].0 != name
}

/// Dropping a name that no header has changes nothing.
proof fn lemma_drop_none(h: Seq<(Seq<char>, Seq<char>)>, name: Seq<char>)
    requires
        none_named(h, name),
    ensures
        drop_named(h, name) == h,
    decreases h.len(),
{
    reveal(Seq::filter);
    if h.len() > 0 {
        lemma_drop_none(h.drop_last(), name);
        assert(h.drop_last().push(h.last()) =~= h);
    }
}

/// After dropping a name, no header has it.
proof fn lemma_drop_removes(h: Seq<(Seq<char>, Seq<char>)>, name: Seq<char>)
    ensures
        none_named(drop_named(h, name), name),
{
    assert forall|i: int| 0 <= i < drop_named(h, name).len() implies #[trigger] drop_named(h, name)[i].0
        != name by {
        h.lemma_filter_pred(not_named(name), i);
    }
}

/// Dropping a name keeps headers free of another name.
proof fn lemma_drop_keeps(h: Seq<(Seq<char>, Seq<char>)>, name: Seq<char>, other: Seq<char>)
    requires
        none_named(h, other),
    ensures
        none_named(drop_named(h, name), other),
{
    let d = drop_named(h, name);
    assert forall|i: int| 0 <= i < d.len() implies #[trigger] d[i].0 != other by {
        assert(d.contains(d[i]));
        h.lemma_filter_contains_rev(not_named(name), d[i]);
        let j = choose|j: int| 0 <= j < h.len() && h[j] == d[i];
        assert(h[j].0 != other);
    }
}

/// Dropping a name from two runs of headers drops it from each.
proof fn lemma_drop_add(a: Seq<(Seq<char>, Seq<char>)>, b: Seq<(Seq<char>, Seq<char>)>, name: Seq<char>)
    ensures
        drop_named(a + b, name) == drop_named(a, name) + drop_named(b, name),
{
    Seq::filter_distributes_over_add(a, b, not_named(name));
}

/// Setting a header after headers of other names keeps them at the end.
proof fn lemma_insert_step(
    x: Seq<(Seq<char>, Seq<char>)>,
    es: Seq<(Seq<char>, Seq<char>)>,
    name: Seq<char>,
    value: Seq<char>,
)
    requires
        none_named(es, name),
    ensures
        header_insert(x + es, name, value) == drop_named(x, name) + es.push((name, value)),
{
    lemma_drop_add(x, es, name);
    lemma_drop_none(es, name);
    assert((drop_named(x, name) + es).push((name, value)) =~= drop_named(x, name) + es.push(
        (name, value),
    ));
}

/// Dropping the name of the first header, which no later header has,
/// drops just that header.
proof fn lemma_drop_first(s: Seq<(Seq<char>, Seq<char>)>, name: Seq<char>)
    requires
        s.len() > 0,
        s[0].0 == name,
        none_named(s.drop_first(), name),
    ensures
        drop_named(s, name) == s.drop_first(),
{
    let head = seq![s[0]];
    assert(head + s.drop_first() =~= s);
    lemma_drop_add(head, s.drop_first(), name);
    lemma_drop_none(s.drop_first(), name);
    lemma_drop_removes(head, name);
    assert(drop_named(head, name).len() <= 1) by {
        head.lemma_filter_len(not_named(name));
    }
    if drop_named(head, name).len() == 1 {
        assert(drop_named(head, name).contains(drop_named(head, name)[0]));
        head.lemma_filter_contains_rev(not_named(name), drop_named(head, name)[0]);
        assert(drop_named(head, name)[0] == s[0]);
        assert(false);
    }
    assert(drop_named(head, name) =~= Seq::<(Seq<char>, Seq<char>)>::empty());
    assert(Seq::<(Seq<char>, Seq<char>)>::empty() + s.drop_first() =~= s.drop_first());
}

/// Five headers set in turn.
pub open spec fn insert_all(h: Seq<(Seq<char>, Seq<char>)>, l: Seq<(Seq<char>, Seq<char>)>) -> Seq<
    (Seq<char>, Seq<char>),
> {
    header_insert(
        header_insert(
            header_insert(header_insert(header_insert(h, l[0].0, l[0].1), l[1].0, l[1].1), l[2].0, l[2].1),
            l[3].0,
            l[3].1,
        ),
        l[4].0,
        l[4].1,
    )
}

/// Five header names dropped in turn.
pub open spec fn drop_all(h: Seq<(Seq<char>, Seq<char>)>, l: Seq<(Seq<char>, Seq<char>)>) -> Seq<
    (Seq<char>, Seq<char>),
> {
    drop_named(drop_named(drop_named(drop_named(drop_named(h, l[0].0), l[1].0), l[2].0), l[3].0), l[4].0)
}

/// Whether five headers have five different names.
pub open spec fn distinct_names(l: Seq<(Seq<char>, Seq<char>)>) -> bool {
    l.len() == 5 && forall|i: int, j: int| 0 <= i < j < 5 ==> l[i].0 != l[j].0
}

/// Whether none of the headers has any of five names.
pub open spec fn clean_of(w: Seq<(Seq<char>, Seq<char>)>, l: Seq<(Seq<char>, Seq<char>)>) -> bool {
    none_named(w, l[0].0) && none_named(w, l[1].0) && none_named(w, l[2].0) && none_named(w, l[3].0)
        && none_named(w, l[4].0)
}

/// Setting five headers of different names leaves the other headers in
/// their order, followed by the five.
proof fn lemma_insert_all_shape(h: Seq<(Seq<char>, Seq<char>)>, l: Seq<(Seq<char>, Seq<char>)>)
    requires
        distinct_names(l),
    ensures
        insert_all(h, l) == drop_all(h, l) + l,
{
    let e0 = seq![l[0]];
    let e1 = e0.push(l[1]);
    let e2 = e1.push(l[2]);
    let e3 = e2.push(l[3]);
    let d0 = drop_named(h, l[0].0);
    let d1 = drop_named(d0, l[1].0);
    let d2 = drop_named(d1, l[2].0);
    let d3 = drop_named(d2, l[3].0);
    assert(h + Seq::<(Seq<char>, Seq<char>)>::empty() =~= h);
    lemma_insert_step(h, Seq::empty(), l[0].0, l[0].1);
    assert(Seq::<(Seq<char>, Seq<char>)>::empty().push((l[0].0, l[0].1)) =~= e0);
    assert(l[0].0 != l[1].0);
    lemma_insert_step(d0, e0, l[1].0, l[1].1);
    assert(e0.push((l[1].0, l[1].1)) =~= e1);
    assert(l[0].0 != l[2].0 && l[1].0 != l[2].0);
    lemma_insert_step(d1, e1, l[2].0, l[2].1);
    assert(e1.push((l[2].0, l[2].1)) =~= e2);
    assert(l[0].0 != l[3].0 && l[1].0 != l[3].0 && l[2].0 != l[3].0);
    lemma_insert_step(d2, e2, l[3].0, l[3].1);
    assert(e2.push((l[3].0, l[3].1)) =~= e3);
    assert(l[0].0 != l[4].0 && l[1].0 != l[4].0 && l[2].0 != l[4].0 && l[3].0 != l[4].0);
    lemma_insert_step(d3, e3, l[4].0, l[4].1);
    assert(e3.push((l[4].0, l[4].1)) =~= l);
}

/// After dropping five names, no header has any of them.
proof fn lemma_drop_all_clean(h: Seq<(Seq<char>, Seq<char>)>, l: Seq<(Seq<char>, Seq<char>)>)
    requires
        l.len() == 5,
    ensures
        clean_of(drop_all(h, l), l),
{
    let d0 = drop_named(h, l[0].0);
    let d1 = drop_named(d0, l[1].0);
    let d2 = drop_named(d1, l[2].0);
    let d3 = drop_named(d2, l[3].0);
    let d4 = drop_named(d3, l[4].0);
    lemma_drop_removes(h, l[0].0);
    lemma_drop_keeps(d0, l[1].0, l[0].0);
    lemma_drop_removes(d0, l[1].0);
    lemma_drop_keeps(d1, l[2].0, l[0].0);
    lemma_drop_keeps(d1, l[2].0, l[1].0);
    lemma_drop_removes(d1, l[2].0);
    lemma_drop_keeps(d2, l[3].0, l[0].0);
    lemma_drop_keeps(d2, l[3].0, l[1].0);
    lemma_drop_keeps(d2, l[3].0, l[2].0);
    lemma_drop_removes(d2, l[3].0);
    lemma_drop_keeps(d3, l[4].0, l[0].0);
    lemma_drop_keeps(d3, l[4].0, l[1].0);
    lemma_drop_keeps(d3, l[4].0, l[2].0);
    lemma_drop_keeps(d3, l[4].0, l[3].0);
    lemma_drop_removes(d3, l[4].0);
}

/// Dropping the name of the first of some headers, which no later one
/// has, from headers free of it followed by them drops just that header.
proof fn lemma_drop_step(w: Seq<(Seq<char>, Seq<char>)>, t: Seq<(Seq<char>, Seq<char>)>, name: Seq<char>)
    requires
        none_named(w, name),
        t.len() > 0,
        t[0].0 == name,
        none_named(t.drop_first(), name),
    ensures
        drop_named(w + t, name) == w + t.drop_first(),
{
    lemma_drop_add(w, t, name);
    lemma_drop_none(w, name);
    lemma_drop_first(t, name);
}

/// Dropping five names from headers free of them, followed by the five
/// headers themselves, leaves the headers.
proof fn lemma_drop_all_of_clean(w: Seq<(Seq<char>, Seq<char>)>, l: Seq<(Seq<char>, Seq<char>)>)
    requires
        distinct_names(l),
        clean_of(w, l),
    ensures
        drop_all(w + l, l) == w,
{
    let t1 = seq![l[1], l[2], l[3], l[4]];
    let t2 = seq![l[2], l[3], l[4]];
    let t3 = seq![l[3], l[4]];
    let t4 = seq![l[4]];
    let t5 = Seq::<(Seq<char>, Seq<char>)>::empty();
    assert(l.drop_first() =~= t1);
    assert(t1.drop_first() =~= t2);
    assert(t2.drop_first() =~= t3);
    assert(t3.drop_first() =~= t4);
    assert(t4.drop_first() =~= t5);
    assert(l[0].0 != l[1].0 && l[0].0 != l[2].0 && l[0].0 != l[3].0 && l[0].0 != l[4].0);
    assert(l[1].0 != l[2].0 && l[1].0 != l[3].0 && l[1].0 != l[4].0);
    assert(l[2].0 != l[3].0 && l[2].0 != l[4].0 && l[3].0 != l[4].0);
    assert(none_named(t1, l[0].0));
    assert(none_named(t2, l[1].0));
    assert(none_named(t3, l[2].0));
    assert(none_named(t4, l[3].0));
    assert(none_named(t5, l[4].0));
    lemma_drop_step(w, l, l[0].0);
    lemma_drop_step(w, t1, l[1].0);
    lemma_drop_step(w, t2, l[2].0);
    lemma_drop_step(w, t3, l[3].0);
    lemma_drop_step(w, t4, l[4].0);
    assert(w + t5 =~= w);
}

/// Setting five headers of different names twice is the same as setting
/// them once.
proof fn lemma_insert_all_idempotent(h: Seq<(Seq<char>, Seq<char>)>, l: Seq<(Seq<char>, Seq<char>)>)
    requires
        distinct_names(l),
    ensures
        insert_all(insert_all(h, l), l) == insert_all(h, l),
{
    let w = drop_all(h, l);
    lemma_insert_all_shape(h, l);
    lemma_drop_all_clean(h, l);
    lemma_insert_all_shape(w + l, l);
    lemma_drop_all_of_clean(w, l);
}

/// The names of the security headers differ from one another.
proof fn lemma_security_names_distinct()
    ensures
        distinct_names(security_header_list()),
{
    reveal_strlit("strict-transport-security");
    reveal_strlit("x-frame-options");
    reveal_strlit("x-content-type-options");
    reveal_strlit("content-security-policy");
    reveal_strlit("referrer-policy");
    let l = security_header_list();
    assert(l[0].0.len() == 25 && l[1].0.len() == 15 && l[2].0.len() == 22 && l[3].0.len() == 23
        && l[4].0.len() == 15);
    assert(l[1].0[0] == 'x' && l[4].0[0] == 'r');
}

/// Setting the security headers twice is the same as setting them once.
pub proof fn lemma_security_headers_idempotent(h: Seq<(Seq<char>, Seq<char>)>)
    ensures
        with_security_headers(with_security_headers(h)) == with_security_headers(h),
{
    lemma_security_names_distinct();
    lemma_insert_all_idempotent(h, security_header_list());
}

} // verus!
