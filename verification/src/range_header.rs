//! The `Range` request header (`bytes=<spec>,<spec>,...`).
//!
//! A value is kept as it was received; its byte-range specs are read on
//! demand, either as written (`iter`) or resolved against a representation
//! length (`satisfiable_ranges`).
use vstd::prelude::*;

use headers::Range as TypedRange;

use crate::text::{chars_of, find, find_in, parse_u64, parse_u64_spec, split, split_bounds, starts_with, trim, trim_bounds};

verus! {

/// A bound of a byte range, as in `std::ops::Bound`.
#[derive(Clone, Copy, Debug, PartialEq, Eq)]
pub enum Bound {
    /// The bound includes this position.
    Included(u64),
    /// The bound excludes this position.
    Excluded(u64),
    /// There is no bound on this side.
    Unbounded,
}

/// `headers::Range`, the typed `Range` header.
#[verifier::external_type_specification]
#[verifier::external_body]
pub struct ExHeadersRange(TypedRange);

/// A `Range` header whose value starts with `bytes=`: its text and the
/// typed header read from it.
#[derive(Debug)]
pub struct Range {
    value: Vec<char>,
    header: TypedRange,
}

impl View for Range {
    type V = Seq<char>;

    closed spec fn view(&self) -> Seq<char> {
        self.value@
    }
}

/// The characters that a header value may hold to be read as text
/// (visible ASCII and horizontal tab).
pub open spec fn is_visible(c: char) -> bool {
    c == '\t' || (' ' <= c && c <= '~')
}

/// The unit prefix of a byte `Range` value.
pub open spec fn bytes_unit() -> Seq<char> {
    seq!['b', 'y', 't', 'e', 's', '=']
}

/// A header value is a `Range` when it is text and starts with `bytes=`.
pub open spec fn is_range_value(s: Seq<char>) -> bool {
    &&& forall|i: int| 0 <= i < s.len() ==> is_visible(#[trigger] s[i])
    &&& starts_with(s, bytes_unit())
}

/// The comma-separated specs of a `Range` value.
pub open spec fn range_specs(s: Seq<char>) -> Seq<Seq<char>> {
    split(s.skip(6), ',')
}

/// One side of a spec: empty means unbounded, else a `u64`.
pub open spec fn parse_bound_spec(s: Seq<char>) -> Option<Bound> {
    if s.len() == 0 {
        Some(Bound::Unbounded)
    } else {
        match parse_u64_spec(s) {
            Some(n) => Some(Bound::Included(n)),
            None => None,
        }
    }
}

/// A spec `first-last` (trimmed, split at its first `-`), when both sides
/// are well formed.
pub open spec fn parse_spec(spec: Seq<char>) -> Option<(Bound, Bound)> {
    let t = trim(spec);
    match find(t, '-') {
        None => None,
        Some(i) => match (parse_bound_spec(t.take(i)), parse_bound_spec(t.skip(i + 1))) {
            (Some(a), Some(b)) => Some((a, b)),
            _ => None,
        },
    }
}

/// A spec resolved against a representation of `len` bytes: a suffix
/// `-n` becomes `len - n ..` and is dropped when longer than `len`; any
/// other spec (`-` open on both sides among them) is kept as it is.
pub open spec fn resolve_spec(b: (Bound, Bound), len: u64) -> Option<(Bound, Bound)> {
    match (b.0, b.1) {
        (Bound::Unbounded, Bound::Included(end)) => if len < end {
            None
        } else {
            Some((Bound::Included((len - end) as u64), Bound::Unbounded))
        },
        _ => Some(b),
    }
}

/// The well-formed specs of a `Range` value resolved against `len`, in
/// order (what `headers::Range::satisfiable_ranges` yields).
pub open spec fn satisfiable_specs(v: Seq<char>, len: u64) -> Seq<(Bound, Bound)> {
    range_specs(v).filter_map(
        |s: Seq<char>|
            match parse_spec(s) {
                Some(b) => resolve_spec(b, len),
                None => None,
            },
    )
}

/// `http::HeaderValue::from_str` and then `headers::Range` decoding: the
/// value is read as a typed `Range` exactly when it is visible ASCII text
/// (tabs allowed) that starts with `bytes=`.
#[verifier::external_body]
fn decode_range(value: &str) -> (r: Option<TypedRange>)
    ensures
        r is Some <==> is_range_value(value@),
{
    let v = http::HeaderValue::from_str(value).ok()?;
    <TypedRange as headers::Header>::decode(&mut std::iter::once(&v)).ok()
}

/// `headers::Range::satisfiable_ranges`: the comma-separated specs after
/// `bytes=`, each trimmed, split at its first `-` into two bounds (empty
/// for unbounded, else a `u64`), the malformed ones skipped, and a suffix
/// resolved against `len` (see `resolve_spec`); each `std::ops::Bound` is
/// handed back as the library's `Bound`.
#[verifier::external_body]
fn header_satisfiable_ranges(range: &Range, len: u64) -> (r: Vec<(Bound, Bound)>)
    requires
        is_range_value(range@),
    ensures
        r@ == satisfiable_specs(range@, len),
{
    let conv = |b: std::ops::Bound<u64>| match b {
        std::ops::Bound::Included(x) => Bound::Included(x),
        std::ops::Bound::Excluded(x) => Bound::Excluded(x),
        std::ops::Bound::Unbounded => Bound::Unbounded,
    };
    range.header.satisfiable_ranges(len).map(|(a, b)| (conv(a), conv(b))).collect()
}

impl Range {
    /// Reads a header value as a `Range`; `None` unless it is text that
    /// starts with `bytes=`.
    pub fn decode(value: &str) -> (r: Option<Range>)
        ensures
            r is Some <==> is_range_value(value@),
            r matches Some(r) ==> r@ == value@,
    {
        match decode_range(value) {
            Some(header) => Some(Range { value: chars_of(value), header }),
            None => None,
        }
    }

    /// The header value.
    pub fn as_chars(&self) -> (v: &Vec<char>)
        ensures
            v@ == self@,
    {
        &self.value
    }

    /// The well-formed specs of the value, in order, each as written
    /// (a suffix `-n` is `(Unbounded, Included(n))`).
    pub fn iter(&self) -> (r: Vec<(Bound, Bound)>)
        requires
            is_range_value(self@),
        ensures
            r@ == range_specs(self@).filter_map(|s: Seq<char>| parse_spec(s)),
    {
        let v = &self.value;
        let parts = split_bounds(v.as_slice(), 6, v.len(), ',');
        let ghost specs = range_specs(self@);
        proof {
            assert(v@.subrange(6, v@.len() as int) =~= self@.skip(6));
        }
        let mut r: Vec<(Bound, Bound)> = Vec::new();
        let mut k: usize = 0;
        while k < parts.len()
            invariant
                k <= parts@.len() == specs.len(),
                specs == range_specs(self@),
                v@ == self@,
                forall|j: int|
                    0 <= j < parts@.len() ==> {
                        let (a, b) = #[trigger] parts@[j];
                        &&& 6 <= a <= b <= v@.len()
                        &&& v@.subrange(a as int, b as int) == specs[j]
                    },
                r@ == specs.take(k as int).filter_map(|s: Seq<char>| parse_spec(s)),
            decreases parts@.len() - k,
        {
            let (a, b) = parts[k];
            let item = parse_spec_at(v.as_slice(), a, b);
            proof {
                lemma_filter_map_take_step::<Seq<char>, (Bound, Bound)>(specs, k as int);
            }
            match item {
                Some(p) => {
                    r.push(p);
                },
                None => {},
            }
            k = k + 1;
        }
        assert(specs.take(specs.len() as int) =~= specs);
        r
    }

    /// The well-formed specs of the value resolved against a representation
    /// of `len` bytes, in order (see `resolve_spec`).
    pub fn satisfiable_ranges(&self, len: u64) -> (r: Vec<(Bound, Bound)>)
        requires
            is_range_value(self@),
        ensures
            r@ == satisfiable_specs(self@, len),
    {
        header_satisfiable_ranges(self, len)
    }
}

/// Extending the prefix of a list by one element extends its `filter_map`
/// by that element's image, if any.
pub proof fn lemma_filter_map_take_step<A, B>(s: Seq<A>, k: int)
    requires
        0 <= k < s.len(),
    ensures
        forall|f: spec_fn(A) -> Option<B>|
            #[trigger] s.take(k + 1).filter_map(f) == match f(s[k]) {
                Some(b) => s.take(k).filter_map(f).push(b),
                None => s.take(k).filter_map(f),
            },
{
    assert forall|f: spec_fn(A) -> Option<B>|
        #[trigger] s.take(k + 1).filter_map(f) == match f(s[k]) {
            Some(b) => s.take(k).filter_map(f).push(b),
            None => s.take(k).filter_map(f),
        } by {
        let t = s.take(k + 1);
        assert(t.drop_last() =~= s.take(k));
        assert(t.last() == s[k]);
        reveal_with_fuel(Seq::filter_map, 1);
    }
}

/// Executable `parse_bound_spec` on `v[lo..hi]`.
fn parse_bound_at(v: &[char], lo: usize, hi: usize) -> (r: Option<Bound>)
    requires
        lo <= hi <= v@.len(),
    ensures
        r == parse_bound_spec(v@.subrange(lo as int, hi as int)),
{
    if lo == hi {
        Some(Bound::Unbounded)
    } else {
        match parse_u64(v, lo, hi) {
            Some(n) => Some(Bound::Included(n)),
            None => None,
        }
    }
}

/// Executable `parse_spec` on `v[lo..hi]`.
pub fn parse_spec_at(v: &[char], lo: usize, hi: usize) -> (r: Option<(Bound, Bound)>)
    requires
        lo <= hi <= v@.len(),
    ensures
        r == parse_spec(v@.subrange(lo as int, hi as int)),
{
    let (a, b) = trim_bounds(v, lo, hi);
    let d = find_in(v, a, b, '-');
    let ghost t = v@.subrange(a as int, b as int);
    if d == b {
        return None;
    }
    proof {
        assert(t.take(d - a) =~= v@.subrange(a as int, d as int));
        assert(t.skip(d - a + 1) =~= v@.subrange(d + 1, b as int));
    }
    let first = parse_bound_at(v, a, d);
    let second = parse_bound_at(v, d + 1, b);
    match (first, second) {
        (Some(x), Some(y)) => Some((x, y)),
        _ => None,
    }
}

} // verus!
