//! Header values with quality weights (`Accept`, `Accept-Encoding`): their
//! items, the `q=` weights given to each, and the items in order of
//! preference.
//!
//! A weight is a decimal number that the server reads as a float and
//! scales to thousandths; that reading happens outside this library, which
//! takes the weights as `u16` thousandths.
use vstd::prelude::*;

use crate::content_coding::{coding_of, ContentCoding};
use crate::text::{
    chars_of, split, split_bounds, starts_with, string_of, trim, trim_bounds, trim_start,
    trim_start_bounds,
};

verus! {

/// One item of a quality header value: what it names, and the texts of
/// its `q=` parameters in order.
#[derive(Debug, Clone)]
pub struct QualityMeta {
    /// The item itself, trimmed (`gzip` in `gzip;q=0.8`).
    pub data: String,
    /// The texts after `q=` of its parameters, trimmed.
    pub q_values: Vec<String>,
}

/// The weight texts among the `;`-separated parts of an item: each part
/// that starts with `q=` once leading white space is dropped gives the rest
/// of it, trimmed.
pub open spec fn q_texts(parts: Seq<Seq<char>>) -> Seq<Seq<char>>
    decreases parts.len(),
{
    if parts.len() == 0 {
        Seq::empty()
    } else {
        let t = trim_start(parts[0]);
        let rest = q_texts(parts.drop_first());
        if starts_with(t, "q="@) {
            seq![trim(t.skip(2))] + rest
        } else {
            rest
        }
    }
}

/// What an item of a quality header value holds.
pub open spec fn quality_meta_spec(item: Seq<char>) -> (Seq<char>, Seq<Seq<char>>) {
    (trim(split(item, ';')[0]), q_texts(split(item, ';')))
}

/// The strings as characters.
pub open spec fn views(v: Seq<String>) -> Seq<Seq<char>> {
    v.map_values(|s: String| s@)
}

/// Reads one item of `v[lo..hi]`.
fn quality_meta_at(v: &[char], lo: usize, hi: usize) -> (r: QualityMeta)
    requires
        lo <= hi <= v@.len(),
    ensures
        (r.data@, views(r.q_values@)) == quality_meta_spec(v@.subrange(lo as int, hi as int)),
{
    proof {
        reveal_strlit("q=");
    }
    let ghost item = v@.subrange(lo as int, hi as int);
    let parts = split_bounds(v, lo, hi, ';');
    let ghost ps = split(item, ';');
    proof {
        crate::text::lemma_split_nonempty(item, ';');
    }
    let (a0, b0) = parts[0];
    let (a, b) = trim_bounds(v, a0, b0);
    let data = string_of(v, a, b);
    let mut q_values: Vec<String> = Vec::new();
    let mut k: usize = parts.len();
    assert(ps.skip(parts@.len() as int) =~= Seq::<Seq<char>>::empty());
    while k > 0
        invariant
            k <= parts@.len() == ps.len(),
            lo <= hi <= v@.len(),
            ps == split(item, ';'),
            item == v@.subrange(lo as int, hi as int),
            forall|j: int|
                0 <= j < parts@.len() ==> {
                    let (x, y) = #[trigger] parts@[j];
                    &&& lo <= x <= y <= hi
                    &&& v@.subrange(x as int, y as int) == ps[j]
                },
            views(q_values@) == q_texts(ps.skip(k as int)),
        decreases k,
    {
        let (x, y) = parts[k - 1];
        let ghost p = v@.subrange(x as int, y as int);
        let s = trim_start_bounds(v, x, y);
        proof {
            assert(ps.skip(k - 1).drop_first() =~= ps.skip(k as int));
            assert(ps.skip(k - 1)[0] == p);
        }
        let ghost t = v@.subrange(s as int, y as int);
        assert(t == trim_start(p));
        if y - s >= 2 && v[s] == 'q' && v[s + 1] == '=' {
            let (c, d) = trim_bounds(v, s + 2, y);
            let text = string_of(v, c, d);
            proof {
                reveal_strlit("q=");
                assert(t[0] == v@[s as int] && t[1] == v@[s + 1]);
                assert(t.take(2) =~= "q="@);
                assert(t.skip(2) =~= v@.subrange(s + 2, y as int));
            }
            q_values.insert(0, text);
            assert(views(q_values@) =~= seq![trim(t.skip(2))] + q_texts(ps.skip(k as int)));
        } else {
            proof {
                reveal_strlit("q=");
                if starts_with(t, "q="@) {
                    assert(t.len() >= 2);
                    assert(t.take(2)[0] == t[0]);
                    assert(t.take(2)[1] == t[1]);
                    assert("q="@[0] == 'q' && "q="@[1] == '=');
                    assert(t[0] == v@[s as int] && t[1] == v@[s + 1]);
                    assert(false);
                }
            }
        }
        k = k - 1;
    }
    assert(ps.skip(0) =~= ps);
    QualityMeta { data, q_values }
}

/// Reads one item of a quality header value.
pub fn quality_meta(item: &str) -> (r: QualityMeta)
    ensures
        (r.data@, views(r.q_values@)) == quality_meta_spec(item@),
{
    let v = chars_of(item);
    assert(v@.subrange(0, v@.len() as int) =~= item@);
    quality_meta_at(v.as_slice(), 0, v.len())
}

/// Reads the `,`-separated items of a quality header value.
pub fn quality_items(value: &str) -> (r: Vec<QualityMeta>)
    ensures
        r@.len() == split(value@, ',').len(),
        forall|k: int|
            0 <= k < r@.len() ==> (#[trigger] r@[k].data@, views(r@[k].q_values@))
                == quality_meta_spec(split(value@, ',')[k]),
{
    let v = chars_of(value);
    let n: usize = v.len();
    assert(v@.subrange(0, n as int) =~= value@);
    let parts = split_bounds(v.as_slice(), 0, n, ',');
    let mut r: Vec<QualityMeta> = Vec::new();
    let mut k: usize = 0;
    while k < parts.len()
        invariant
            k <= parts@.len() == split(value@, ',').len(),
            v@ == value@,
            n == v@.len(),
            forall|j: int|
                0 <= j < parts@.len() ==> {
                    let (x, y) = #[trigger] parts@[j];
                    &&& 0 <= x <= y <= n
                    &&& v@.subrange(x as int, y as int) == split(v@.subrange(0, n as int), ',')[j]
                },
            v@.subrange(0, n as int) == value@,
            r@.len() == k,
            forall|j: int|
                0 <= j < k ==> (#[trigger] r@[j].data@, views(r@[j].q_values@)) == quality_meta_spec(
                    split(value@, ',')[j],
                ),
        decreases parts@.len() - k,
    {
        let (x, y) = parts[k];
        let m = quality_meta_at(v.as_slice(), x, y);
        r.push(m);
        k = k + 1;
    }
    r
}

/// The weight of an item, in thousandths, from the readings of its `q=`
/// texts (`None` for a text that is no number): the last reading wins,
/// and an item without one weighs 1000.
pub open spec fn quality_spec(readings: Seq<Option<u16>>) -> u16
    decreases readings.len(),
{
    if readings.len() == 0 {
        1000
    } else {
        match readings.last() {
            Some(q) => q,
            None => quality_spec(readings.drop_last()),
        }
    }
}

/// The weight of an item from the readings of its `q=` texts.
pub fn quality_of(readings: &[Option<u16>]) -> (r: u16)
    ensures
        r == quality_spec(readings@),
{
    let mut k: usize = readings.len();
    assert(readings@.take(k as int) =~= readings@);
    while k > 0
        invariant
            k <= readings@.len(),
            quality_spec(readings@) == quality_spec(readings@.take(k as int)),
        decreases k,
    {
        assert(readings@.take(k as int).drop_last() =~= readings@.take(k - 1));
        assert(readings@.take(k as int).last() == readings@[k - 1]);
        if let Some(q) = readings[k - 1] {
            return q;
        }
        k = k - 1;
    }
    1000
}

/// Whether item `a` comes before item `b` when items are ordered by
/// weight, heaviest first, and otherwise keep their order.
pub open spec fn goes_before(q: Seq<u16>, a: int, b: int) -> bool {
    q[a] > q[b] || (q[a] == q[b] && a < b)
}

/// Whether `idx` lists the items `0..q.len()` in order of preference.
pub open spec fn is_preference_order(q: Seq<u16>, idx: Seq<int>) -> bool {
    &&& idx.len() == q.len()
    &&& forall|i: int| 0 <= i < idx.len() ==> 0 <= #[trigger] idx[i] < q.len()
    &&& forall|e: int| 0 <= e < q.len() ==> #[trigger] idx.contains(e)
    &&& forall|i: int, j: int| 0 <= i < j < idx.len() ==> goes_before(q, #[trigger] idx[i], #[trigger] idx[j])
}

/// The indices as integers.
pub open spec fn int_view(v: Seq<usize>) -> Seq<int> {
    v.map_values(|x: usize| x as int)
}

/// The items' indices in order of preference: heaviest weight first,
/// items of equal weight in the order they were given (a stable sort).
pub fn preference_order(q: &[u16]) -> (r: Vec<usize>)
    ensures
        is_preference_order(q@, int_view(r@)),
{
    let mut r: Vec<usize> = Vec::new();
    let mut k: usize = 0;
    while k < q.len()
        invariant
            k <= q@.len(),
            r@.len() == k,
            forall|i: int| 0 <= i < r@.len() ==> 0 <= #[trigger] r@[i] < k,
            forall|e: int| 0 <= e < k ==> #[trigger] int_view(r@).contains(e),
            forall|i: int, j: int|
                0 <= i < j < r@.len() ==> goes_before(q@, #[trigger] r@[i] as int, #[trigger] r@[j] as int),
        decreases q@.len() - k,
    {
        // The first position whose item weighs less than item `k`.
        let mut p: usize = 0;
        while p < r.len() && q[r[p]] >= q[k]
            invariant
                p <= r@.len(),
                r@.len() == k,
                k < q@.len(),
                forall|i: int| 0 <= i < r@.len() ==> 0 <= #[trigger] r@[i] < k,
                forall|i: int| 0 <= i < p ==> q@[#[trigger] r@[i] as int] >= q@[k as int],
            decreases r@.len() - p,
        {
            p = p + 1;
        }
        proof {
            // Every item from `p` on weighs less than item `k`.
            let qk = q@[k as int];
            assert forall|i: int| p <= i < r@.len() implies q@[#[trigger] r@[i] as int] < qk by {
                if i > p {
                    assert(goes_before(q@, r@[p as int] as int, r@[i] as int));
                }
            }
        }
        let ghost old_r = r@;
        r.insert(p, k);
        proof {
            assert forall|i: int| 0 <= i < r@.len() implies 0 <= #[trigger] r@[i] < k + 1 by {
                if i < p {
                    assert(r@[i] == old_r[i]);
                } else if i > p {
                    assert(r@[i] == old_r[i - 1]);
                }
            }
            assert forall|e: int| 0 <= e < k + 1 implies #[trigger] int_view(r@).contains(e) by {
                if e == k {
                    assert(int_view(r@)[p as int] == e);
                } else {
                    assert(int_view(old_r).contains(e));
                    let i = choose|i: int| 0 <= i < int_view(old_r).len() && int_view(old_r)[i] == e;
                    if i < p {
                        assert(int_view(r@)[i] == e);
                    } else {
                        assert(int_view(r@)[i + 1] == e);
                    }
                }
            }
            assert forall|i: int, j: int|
                0 <= i < j < r@.len() implies goes_before(q@, #[trigger] r@[i] as int, #[trigger] r@[j] as int) by {
                if j < p {
                    assert(r@[i] == old_r[i] && r@[j] == old_r[j]);
                } else if j == p {
                    assert(r@[i] == old_r[i]);
                    assert(q@[old_r[i] as int] >= q@[k as int]);
                } else if i == p {
                    assert(r@[j] == old_r[j - 1]);
                    assert(q@[old_r[j - 1] as int] < q@[k as int]);
                } else if i < p {
                    assert(r@[i] == old_r[i] && r@[j] == old_r[j - 1]);
                    assert(goes_before(q@, old_r[i] as int, old_r[j - 1] as int));
                } else {
                    assert(r@[i] == old_r[i - 1] && r@[j] == old_r[j - 1]);
                    assert(goes_before(q@, old_r[i - 1] as int, old_r[j - 1] as int));
                }
            }
        }
        k = k + 1;
    }
    r
}

/// The weights of weighted items.
pub open spec fn weights(items: Seq<(String, u16)>) -> Seq<u16> {
    items.map_values(|it: (String, u16)| it.1)
}

/// The items, heaviest weight first, items of equal weight in the order
/// they were given.
pub fn sorted_values(items: &[(String, u16)]) -> (r: Vec<String>)
    ensures
        exists|idx: Seq<int>|
            #[trigger] is_preference_order(weights(items@), idx) && views(r@)
                == idx.map_values(|i: int| items@[i].0@),
{
    let mut q: Vec<u16> = Vec::new();
    let mut k: usize = 0;
    while k < items.len()
        invariant
            k <= items@.len(),
            q@ == weights(items@).take(k as int),
        decreases items@.len() - k,
    {
        q.push(items[k].1);
        assert(q@ =~= weights(items@).take(k + 1));
        k = k + 1;
    }
    assert(q@ =~= weights(items@));
    let order = preference_order(q.as_slice());
    let ghost idx = int_view(order@);
    assert forall|j: int| 0 <= j < order@.len() implies 0 <= #[trigger] order@[j] < items@.len() by {
        assert(idx[j] == order@[j] as int);
    }
    let mut r: Vec<String> = Vec::new();
    let mut i: usize = 0;
    while i < order.len()
        invariant
            i <= order@.len() == items@.len(),
            idx == int_view(order@),
            forall|j: int| 0 <= j < order@.len() ==> 0 <= #[trigger] order@[j] < items@.len(),
            views(r@) == idx.take(i as int).map_values(|j: int| items@[j].0@),
        decreases order@.len() - i,
    {
        let s = items[order[i]].0.clone();
        let ghost old_r = r@;
        r.push(s);
        proof {
            let e = order@[i as int] as int;
            assert(idx[i as int] == e);
            assert(idx.take(i + 1) =~= idx.take(i as int).push(e));
            assert(idx.take(i + 1).map_values(|j: int| items@[j].0@) =~= idx.take(
                i as int,
            ).map_values(|j: int| items@[j].0@).push(items@[e].0@));
            assert(views(r@) =~= views(old_r).push(items@[e].0@));
        }
        i = i + 1;
    }
    assert(idx.take(i as int) =~= idx);
    r
}

/// The coding an item names, `identity` for anything that is not one.
pub open spec fn coding_or_identity(s: Seq<char>) -> ContentCoding {
    match coding_of(s) {
        Some(c) => c,
        None => ContentCoding::IDENTITY,
    }
}

/// The codings of an `Accept-Encoding` value, most preferred first.
pub fn sorted_encodings(items: &[(String, u16)]) -> (r: Vec<ContentCoding>)
    ensures
        exists|idx: Seq<int>|
            #[trigger] is_preference_order(weights(items@), idx) && r@
                == idx.map_values(|i: int| coding_or_identity(items@[i].0@)),
{
    let values = sorted_values(items);
    let ghost idx = choose|idx: Seq<int>|
        #[trigger] is_preference_order(weights(items@), idx) && views(values@)
            == idx.map_values(|i: int| items@[i].0@);
    assert(views(values@).len() == values@.len());
    assert(idx.map_values(|j: int| items@[j].0@).len() == idx.len());
    let mut r: Vec<ContentCoding> = Vec::new();
    let mut i: usize = 0;
    while i < values.len()
        invariant
            i <= values@.len() == idx.len(),
            views(values@) == idx.map_values(|j: int| items@[j].0@),
            r@ == idx.take(i as int).map_values(|j: int| coding_or_identity(items@[j].0@)),
        decreases values@.len() - i,
    {
        let c = ContentCoding::from(values[i].as_str());
        assert(values@[i as int]@ == views(values@)[i as int]);
        r.push(c);
        assert(r@ =~= idx.take(i + 1).map_values(|j: int| coding_or_identity(items@[j].0@)));
        i = i + 1;
    }
    assert(idx.take(i as int) =~= idx);
    r
}

/// The values of a header joined into one, separated by `, `.
pub open spec fn joined(values: Seq<Seq<char>>) -> Seq<char>
    decreases values.len(),
{
    if values.len() == 0 {
        Seq::empty()
    } else if values.len() == 1 {
        values[0]
    } else {
        joined(values.drop_last()) + ", "@ + values.last()
    }
}

/// Joins the values of a header into one.
pub fn join_values(values: &[&str]) -> (r: String)
    ensures
        r@ == joined(values@.map_values(|s: &str| s@)),
{
    let ghost vs = values@.map_values(|s: &str| s@);
    if values.len() == 0 {
        return String::new();
    }
    let mut r = String::from_str(values[0]);
    let mut i: usize = 1;
    assert(vs.take(1).drop_last() =~= Seq::<Seq<char>>::empty());
    while i < values.len()
        invariant
            1 <= i <= values@.len(),
            vs == values@.map_values(|s: &str| s@),
            r@ == joined(vs.take(i as int)),
        decreases values@.len() - i,
    {
        r.append(", ");
        r.append(values[i]);
        assert(vs.take(i + 1).drop_last() =~= vs.take(i as int));
        i = i + 1;
    }
    assert(vs.take(i as int) =~= vs);
    r
}

/// A character in ASCII lower case.
pub open spec fn ascii_lower(c: char) -> char {
    if 'A' <= c <= 'Z' {
        ((c as u32) + 32) as char
    } else {
        c
    }
}

/// `str::eq_ignore_ascii_case`.
pub open spec fn eq_ignore_ascii_case(a: Seq<char>, b: Seq<char>) -> bool {
    a.len() == b.len() && forall|i: int| 0 <= i < a.len() ==> ascii_lower(a[i]) == ascii_lower(b[i])
}

/// The ASCII lower case of a character.
fn to_ascii_lower(c: char) -> (r: char)
    ensures
        r == ascii_lower(c),
{
    if 'A' <= c && c <= 'Z' {
        let u = (c as u32) + 32;
        crate::quality_value::char_of(u)
    } else {
        c
    }
}

/// The character of an ASCII code.
fn char_of(u: u32) -> (c: char)
    requires
        u < 128,
    ensures
        c == u as char,
{
    (u as u8) as char
}

/// Compares two texts ignoring ASCII case.
fn same_ignoring_ascii_case(a: &[char], b: &[char]) -> (r: bool)
    ensures
        r == eq_ignore_ascii_case(a@, b@),
{
    if a.len() != b.len() {
        return false;
    }
    let mut i: usize = 0;
    while i < a.len()
        invariant
            i <= a@.len() == b@.len(),
            forall|j: int| 0 <= j < i ==> ascii_lower(a@[j]) == ascii_lower(b@[j]),
        decreases a@.len() - i,
    {
        if to_ascii_lower(a[i]) != to_ascii_lower(b[i]) {
            return false;
        }
        i = i + 1;
    }
    true
}

/// Whether an `Accept` value names a media type (ignoring ASCII case),
/// whatever weight it gives it.
pub open spec fn accepts_spec(value: Seq<char>, media_type: Seq<char>) -> bool {
    exists|k: int|
        0 <= k < split(value, ',').len() && eq_ignore_ascii_case(
            #[trigger] quality_meta_spec(split(value, ',')[k]).0,
            media_type,
        )
}

/// Whether an `Accept` header value names a media type.
pub fn accepts(value: &str, media_type: &str) -> (r: bool)
    ensures
        r == accepts_spec(value@, media_type@),
{
    let items = quality_items(value);
    let m = chars_of(media_type);
    let mut k: usize = 0;
    while k < items.len()
        invariant
            k <= items@.len() == split(value@, ',').len(),
            m@ == media_type@,
            forall|j: int|
                0 <= j < items@.len() ==> (#[trigger] items@[j].data@, views(items@[j].q_values@))
                    == quality_meta_spec(split(value@, ',')[j]),
            forall|j: int|
                0 <= j < k ==> !eq_ignore_ascii_case(
                    #[trigger] quality_meta_spec(split(value@, ',')[j]).0,
                    media_type@,
                ),
        decreases items@.len() - k,
    {
        let d = chars_of(items[k].data.as_str());
        assert((items@[k as int].data@, views(items@[k as int].q_values@)) == quality_meta_spec(
            split(value@, ',')[k as int],
        ));
        if same_ignoring_ascii_case(d.as_slice(), m.as_slice()) {
            assert(eq_ignore_ascii_case(
                quality_meta_spec(split(value@, ',')[k as int]).0,
                media_type@,
            ));
            return true;
        }
        k = k + 1;
    }
    false
}

/// Whether an `Accept` header value names Markdown (`text/markdown`).
pub fn accepts_markdown(value: &str) -> (r: bool)
    ensures
        r == accepts_spec(value@, "text/markdown"@),
{
    accepts(value, "text/markdown")
}

} // verus!

verus! {

/// The preference order of a list of weights is unique: two orders that
/// both put heavier items first and keep items of equal weight in the
/// order given are the same order.
pub proof fn lemma_preference_order_unique(q: Seq<u16>, a: Seq<int>, b: Seq<int>)
    requires
        is_preference_order(q, a),
        is_preference_order(q, b),
    ensures
        a == b,
{
    lemma_preference_prefix(q, a, b, a.len() as int);
    assert(a =~= b);
}

/// Two preference orders agree on every prefix.
proof fn lemma_preference_prefix(q: Seq<u16>, a: Seq<int>, b: Seq<int>, i: int)
    requires
        is_preference_order(q, a),
        is_preference_order(q, b),
        0 <= i <= a.len(),
    ensures
        forall|j: int| 0 <= j < i ==> a[j] == b[j],
    decreases i,
{
    if i > 0 {
        lemma_preference_prefix(q, a, b, i - 1);
        let t = i - 1;
        if a[t] != b[t] {
            let x = a[t];
            let y = b[t];
            assert(0 <= y < q.len());
            assert(a.contains(y));
            let j = choose|j: int| 0 <= j < a.len() && a[j] == y;
            if j < t {
                assert(b[j] == y);
                assert(goes_before(q, b[j], b[t]));
            }
            assert(j != t);
            assert(goes_before(q, a[t], a[j]));
            assert(0 <= x < q.len());
            assert(b.contains(x));
            let k = choose|k: int| 0 <= k < b.len() && b[k] == x;
            if k < t {
                assert(a[k] == x);
                assert(goes_before(q, a[k], a[t]));
            }
            assert(k != t);
            assert(goes_before(q, b[t], b[k]));
            assert(false);
        }
    }
}

} // verus!
