//! Byte ranges of a file response.
//!
//! `bytes_range` picks the part of a representation of `max_len` bytes that
//! a `Range` header asks for: the first spec that can be served wins, a
//! malformed or inverted spec is an error, and a suffix longer than the
//! representation (RFC 9110, section 14.1.2) serves all of it.
use vstd::prelude::*;

use crate::range_header::{
    is_range_value, parse_spec, parse_spec_at, range_specs, Bound, Range,
};
use crate::numfmt::{dec, push_dec};
use crate::text::{
    all_digits, digit_value, digits_value, is_digit, lemma_digits_value_prefix,
    lemma_digits_value_step, split_bounds, trim, trim_bounds,
};

verus! {

/// A `Range` header that cannot be served.
#[derive(Debug, PartialEq, Eq)]
pub struct BadRangeError;

/// One spec against a representation of `max_len` bytes: an error for a
/// malformed or inverted spec, `None` when it selects nothing, else the
/// half-open interval it selects.
pub open spec fn normalize_spec(start: Bound, end: Bound, max_len: u64) -> Result<
    Option<(u64, u64)>,
    (),
> {
    match (start, end) {
        (Bound::Included(s), Bound::Included(e)) => if s > e {
            Err(())
        } else if s >= max_len {
            Ok(None)
        } else {
            let e2: u64 = if e >= max_len {
                max_len
            } else {
                (e + 1) as u64
            };
            if s < e2 {
                Ok(Some((s, e2)))
            } else {
                Ok(None)
            }
        },
        (Bound::Included(s), Bound::Unbounded) => if s < max_len {
            Ok(Some((s, max_len)))
        } else {
            Ok(None)
        },
        (Bound::Unbounded, Bound::Included(n)) => if n == 0 || max_len == 0 {
            Ok(None)
        } else if n >= max_len {
            Ok(Some((0, max_len)))
        } else {
            Ok(Some(((max_len - n) as u64, max_len)))
        },
        _ => Err(()),
    }
}

/// The outcome of the specs from position `i` on: the first one that is an
/// error or selects an interval decides; `None` when none does.
pub open spec fn first_outcome(specs: Seq<Seq<char>>, i: int, max_len: u64) -> Option<
    Result<(u64, u64), ()>,
>
    decreases specs.len() - i,
{
    if i < 0 || i >= specs.len() {
        None
    } else {
        match parse_spec(specs[i]) {
            None => first_outcome(specs, i + 1, max_len),
            Some((s, e)) => match normalize_spec(s, e, max_len) {
                Err(()) => Some(Err(())),
                Ok(Some(p)) => Some(Ok(p)),
                Ok(None) => first_outcome(specs, i + 1, max_len),
            },
        }
    }
}

/// The length of the run of ASCII digits that `s` starts with.
pub open spec fn digit_run(s: Seq<char>) -> nat
    decreases s.len(),
{
    if s.len() > 0 && is_digit(s[0]) {
        1 + digit_run(s.drop_first())
    } else {
        0
    }
}

/// A spec `-<digits>` whose leading run of digits denotes more than
/// `max_len`.
pub open spec fn suffix_exceeds(spec: Seq<char>, max_len: u64) -> bool {
    spec.len() > 0 && spec[0] == '-' && {
        let d = spec.drop_first();
        digits_value(d.take(digit_run(d) as int)) > max_len
    }
}

/// Some spec of the value is a suffix longer than a non-empty
/// representation.
pub open spec fn oversized_suffix(value: Seq<char>, max_len: u64) -> bool {
    max_len != 0 && exists|k: int|
        0 <= k < range_specs(value).len() && suffix_exceeds(
            trim(#[trigger] range_specs(value)[k]),
            max_len,
        )
}

/// What `bytes_range` returns.
pub open spec fn bytes_range_spec(range: Option<Seq<char>>, max_len: u64) -> Result<
    (u64, u64),
    (),
> {
    match range {
        None => Ok((0, max_len)),
        Some(v) => match first_outcome(range_specs(v), 0, max_len) {
            Some(r) => r,
            None => if oversized_suffix(v, max_len) {
                Ok((0, max_len))
            } else {
                Err(())
            },
        },
    }
}

/// The digits that `digit_run` counts are digits, and the next character
/// is not one.
pub proof fn lemma_digit_run(s: Seq<char>)
    ensures
        digit_run(s) <= s.len(),
        all_digits(s.take(digit_run(s) as int)),
        digit_run(s) < s.len() ==> !is_digit(s[digit_run(s) as int]),
    decreases s.len(),
{
    if s.len() > 0 && is_digit(s[0]) {
        let t = s.drop_first();
        lemma_digit_run(t);
        let n = digit_run(s) as int;
        assert forall|i: int| 0 <= i < n implies is_digit(#[trigger] s.take(n)[i]) by {
            if i > 0 {
                assert(s.take(n)[i] == t.take(n - 1)[i - 1]);
            }
        }
        if n < s.len() {
            assert(s[n] == t[n - 1]);
        }
    }
}

/// A run of `k` digits at the start of `s` means `digit_run(s) >= k`.
pub proof fn lemma_digit_run_at_least(s: Seq<char>, k: int)
    requires
        0 <= k <= s.len(),
        all_digits(s.take(k)),
    ensures
        digit_run(s) >= k,
    decreases k,
{
    if k > 0 {
        assert(s.take(k)[0] == s[0]);
        let t = s.drop_first();
        assert forall|i: int| 0 <= i < k - 1 implies crate::text::is_digit(#[trigger] t.take(k - 1)[i]) by {
            assert(t.take(k - 1)[i] == s.take(k)[i + 1]);
        }
        lemma_digit_run_at_least(t, k - 1);
    }
}

/// Executable `normalize_spec`.
pub fn normalize_byte_range(start: Bound, end: Bound, max_len: u64) -> (r: Result<
    Option<(u64, u64)>,
    BadRangeError,
>)
    ensures
        match r {
            Ok(x) => normalize_spec(start, end, max_len) == Ok::<Option<(u64, u64)>, ()>(x),
            Err(_) => normalize_spec(start, end, max_len) is Err,
        },
{
    match (start, end) {
        (Bound::Included(start), Bound::Included(end)) => {
            if start > end {
                return Err(BadRangeError);
            }
            if start >= max_len {
                return Ok(None);
            }
            let end = if end >= max_len {
                max_len
            } else {
                end + 1
            };
            if start < end {
                Ok(Some((start, end)))
            } else {
                Ok(None)
            }
        },
        (Bound::Included(start), Bound::Unbounded) => {
            if start < max_len {
                Ok(Some((start, max_len)))
            } else {
                Ok(None)
            }
        },
        (Bound::Unbounded, Bound::Included(suffix_len)) => {
            if suffix_len == 0 || max_len == 0 {
                return Ok(None);
            }
            if suffix_len >= max_len {
                Ok(Some((0, max_len)))
            } else {
                Ok(Some((max_len - suffix_len, max_len)))
            }
        },
        _ => Err(BadRangeError),
    }
}

/// Whether the spec `v[lo..hi]` is a suffix `-<digits>` longer than
/// `max_len` (see `suffix_exceeds`).
pub fn suffix_len_exceeds(v: &[char], lo: usize, hi: usize, max_len: u64) -> (b: bool)
    requires
        lo <= hi <= v@.len(),
    ensures
        b == suffix_exceeds(v@.subrange(lo as int, hi as int), max_len),
{
    let ghost spec = v@.subrange(lo as int, hi as int);
    if lo == hi || v[lo] != '-' {
        return false;
    }
    let ghost d = spec.drop_first();
    assert(d =~= v@.subrange(lo + 1, hi as int));
    assert(spec[0] == v@[lo as int]);
    proof {
        lemma_digit_run(d);
    }
    if lo + 1 == hi {
        assert(d.take(0) =~= Seq::<char>::empty());
        return false;
    }
    let mut value: u64 = 0;
    let mut non_zero = false;
    let mut i = lo + 1;
    while i < hi
        invariant
            lo + 1 <= i <= hi <= v@.len(),
            d == v@.subrange(lo + 1, hi as int),
            d == v@.subrange(lo as int, hi as int).drop_first(),
            v@[lo as int] == '-',
            all_digits(d.take(i - lo - 1)),
            value == digits_value(d.take(i - lo - 1)),
            value <= max_len,
            digit_run(d) <= d.len(),
            all_digits(d.take(digit_run(d) as int)),
            digit_run(d) < d.len() ==> !is_digit(d[digit_run(d) as int]),
        decreases hi - i,
    {
        let byte = v[i];
        let ghost k = i - lo - 1;
        assert(d[k] == byte);
        if !('0' <= byte && byte <= '9') {
            proof {
                lemma_digit_run_at_least(d, k);
                if digit_run(d) > k {
                    assert(d.take(digit_run(d) as int)[k] == d[k]);
                }
                assert(digit_run(d) == k);
            }
            return false;
        }
        let digit = digit_value(byte);
        non_zero = non_zero || digit != 0;
        proof {
            lemma_digits_value_step(d, k);
            assert forall|j: int| 0 <= j < k + 1 implies is_digit(#[trigger] d.take(k + 1)[j]) by {
                if j < k {
                    assert(d.take(k + 1)[j] == d.take(k)[j]);
                }
            }
            lemma_digit_run_at_least(d, k + 1);
            let r = digit_run(d) as int;
            assert(d.take(r).take(k + 1) =~= d.take(k + 1));
            lemma_digits_value_prefix(d.take(r), k + 1);
        }
        let next = match value.checked_mul(10) {
            Some(m) => m.checked_add(digit),
            None => None,
        };
        match next {
            None => {
                return true;
            },
            Some(n) => {
                value = n;
            },
        }
        i = i + 1;
        if value > max_len {
            return true;
        }
    }
    proof {
        lemma_digit_run_at_least(d, d.len() as int);
        assert(d.take(d.len() as int) =~= d);
    }
    non_zero && value > max_len
}

/// Whether some spec of the value is a suffix longer than a non-empty
/// representation (see `oversized_suffix`).
pub fn has_oversized_suffix_range(range: &Range, max_len: u64) -> (b: bool)
    requires
        is_range_value(range@),
    ensures
        b == oversized_suffix(range@, max_len),
{
    if max_len == 0 {
        return false;
    }
    let v = range.as_chars();
    let parts = split_bounds(v.as_slice(), 6, v.len(), ',');
    let ghost specs = range_specs(range@);
    proof {
        assert(v@.subrange(6, v@.len() as int) =~= range@.skip(6));
    }
    let mut k: usize = 0;
    while k < parts.len()
        invariant
            k <= parts@.len() == specs.len(),
            specs == range_specs(range@),
            v@ == range@,
            max_len != 0,
            forall|j: int|
                0 <= j < parts@.len() ==> {
                    let (a, b) = #[trigger] parts@[j];
                    &&& 6 <= a <= b <= v@.len()
                    &&& v@.subrange(a as int, b as int) == specs[j]
                },
            forall|j: int| 0 <= j < k ==> !suffix_exceeds(trim(#[trigger] specs[j]), max_len),
        decreases parts@.len() - k,
    {
        let (a, b) = parts[k];
        let (ta, tb) = trim_bounds(v.as_slice(), a, b);
        if suffix_len_exceeds(v.as_slice(), ta, tb, max_len) {
            assert(suffix_exceeds(trim(specs[k as int]), max_len));
            return true;
        }
        k = k + 1;
    }
    false
}

/// The part of a representation of `max_len` bytes that `range` asks for,
/// as a half-open interval `(start, end)`: the whole of it without a
/// `Range` header, else the first spec that selects bytes (see
/// `bytes_range_spec`). A served range is never empty and never reaches
/// past the end of the representation.
#[verifier::loop_isolation(false)]
pub fn bytes_range(range: Option<Range>, max_len: u64) -> (r: Result<(u64, u64), BadRangeError>)
    requires
        range matches Some(v) ==> is_range_value(v@),
    ensures
        match r {
            Ok(p) => bytes_range_spec(
                match range {
                    Some(v) => Some(v@),
                    None => None,
                },
                max_len,
            ) == Ok::<(u64, u64), ()>(p),
            Err(_) => bytes_range_spec(
                match range {
                    Some(v) => Some(v@),
                    None => None,
                },
                max_len,
            ) is Err,
        },
        r matches Ok((start, end)) ==> start <= end <= max_len,
        range is Some ==> (r matches Ok((start, end)) ==> start < end),
{
    let range = if let Some(range) = range {
        range
    } else {
        return Ok((0, max_len));
    };
    let v = range.as_chars();
    let parts = split_bounds(v.as_slice(), 6, v.len(), ',');
    let ghost specs = range_specs(range@);
    proof {
        assert(v@.subrange(6, v@.len() as int) =~= range@.skip(6));
    }
    let mut k: usize = 0;
    while k < parts.len()
        invariant
            k <= parts@.len() == specs.len(),
            specs == range_specs(range@),
            v@ == range@,
            forall|j: int|
                0 <= j < parts@.len() ==> {
                    let (a, b) = #[trigger] parts@[j];
                    &&& 6 <= a <= b <= v@.len()
                    &&& v@.subrange(a as int, b as int) == specs[j]
                },
            first_outcome(specs, 0, max_len) == first_outcome(specs, k as int, max_len),
        decreases parts@.len() - k,
    {
        let (a, b) = parts[k];
        assert(v@.subrange(a as int, b as int) == specs[k as int]);
        match parse_spec_at(v.as_slice(), a, b) {
            Some((start, end)) => {
                match normalize_byte_range(start, end, max_len) {
                    Err(e) => {
                        assert(parse_spec(specs[k as int]) == Some((start, end)));
                        assert(first_outcome(specs, k as int, max_len) == Some(Err::<(u64, u64), ()>(())));
                        return Err(e);
                    },
                    Ok(Some((start, end))) => {
                        return Ok((start, end));
                    },
                    Ok(None) => {},
                }
            },
            None => {},
        }
        k = k + 1;
    }
    if has_oversized_suffix_range(&range, max_len) {
        Ok((0, max_len))
    } else {
        Err(BadRangeError)
    }
}

} // verus!

verus! {

/// The status line and range headers of a file response.
#[derive(Debug, PartialEq, Eq)]
pub struct RangeReply {
    /// 200 (whole representation), 206 (part of it) or 416 (unsatisfiable).
    pub status: u16,
    /// The first byte served.
    pub start: u64,
    /// One past the last byte served.
    pub end: u64,
    /// The `Content-Range` header, for 206 and 416.
    pub content_range: Option<String>,
    /// The `Content-Length` header, for 200 and 206.
    pub content_length: Option<u64>,
}

/// `bytes <first>-<last>/<len>`: the `Content-Range` of a partial response.
pub open spec fn content_range_spec(start: u64, end: u64, len: u64) -> Seq<char> {
    "bytes "@ + dec(start as nat) + "-"@ + dec((end - 1) as nat) + "/"@ + dec(len as nat)
}

/// `bytes */<len>`: the `Content-Range` of an unsatisfiable request.
pub open spec fn unsatisfied_range_spec(len: u64) -> Seq<char> {
    "bytes */"@ + dec(len as nat)
}

/// Builds the `Content-Range` value of a partial response.
pub fn content_range(start: u64, end: u64, len: u64) -> (s: String)
    requires
        start < end <= len,
    ensures
        s@ == content_range_spec(start, end, len),
{
    let mut s = String::from_str("bytes ");
    push_dec(&mut s, start);
    s.append("-");
    push_dec(&mut s, end - 1);
    s.append("/");
    push_dec(&mut s, len);
    assert(s@ =~= content_range_spec(start, end, len));
    s
}

/// Builds the `Content-Range` value of an unsatisfiable request.
pub fn unsatisfied_range(len: u64) -> (s: String)
    ensures
        s@ == unsatisfied_range_spec(len),
{
    let mut s = String::from_str("bytes */");
    push_dec(&mut s, len);
    s
}

/// Plans the response to a request for a representation of `len` bytes:
/// the whole of it with 200, a part of it with 206 and its
/// `Content-Range`, or 416 with `bytes */len` when the range cannot be
/// served. The length announced is always the length of the bytes sent.
pub fn plan_range_reply(range: Option<Range>, len: u64) -> (r: RangeReply)
    requires
        range matches Some(v) ==> is_range_value(v@),
    ensures
        match bytes_range_spec(
            match range {
                Some(v) => Some(v@),
                None => None,
            },
            len,
        ) {
            Ok((start, end)) => {
                &&& r.start == start && r.end == end
                &&& r.content_length == Some((end - start) as u64)
                &&& if end - start != len {
                    &&& r.status == 206
                    &&& r.content_range matches Some(c) && c@ == content_range_spec(start, end, len)
                } else {
                    r.status == 200 && r.content_range is None
                }
            },
            Err(_) => {
                &&& r.status == 416
                &&& r.content_length is None
                &&& r.content_range matches Some(c) && c@ == unsatisfied_range_spec(len)
            },
        },
        r.status != 416 ==> r.start <= r.end <= len,
{
    match bytes_range(range, len) {
        Ok((start, end)) => {
            let sub_len = end - start;
            if sub_len != len {
                RangeReply {
                    status: 206,
                    start,
                    end,
                    content_range: Some(content_range(start, end, len)),
                    content_length: Some(sub_len),
                }
            } else {
                RangeReply { status: 200, start, end, content_range: None, content_length: Some(len) }
            }
        },
        Err(_) => RangeReply {
            status: 416,
            start: 0,
            end: 0,
            content_range: Some(unsatisfied_range(len)),
            content_length: None,
        },
    }
}

} // verus!

verus! {

/// The `Last-Modified` text (an IMF-fixdate, such as
/// `Sun, 06 Nov 1994 08:49:37 GMT`) of a time given as seconds and
/// nanoseconds after the UNIX epoch.
pub uninterp spec fn http_date_text(secs: u64, nanos: u32) -> Seq<char>;

/// The first time that `httpdate` refuses to format: year 9999.
pub const HTTP_DATE_LIMIT_SECS: u64 = 253_402_300_800;

/// `headers::LastModified::from` a `SystemTime`, encoded as a header value.
/// The contract claims only that the text is the one named for these
/// arguments; the conversion panics at or after year 9999, which the
/// `requires` rules out, and a date is always visible ASCII, so its text
/// is read back whole.
#[verifier::external_body]
fn http_date(secs: u64, nanos: u32) -> (r: String)
    requires
        secs < HTTP_DATE_LIMIT_SECS,
        nanos < 1_000_000_000,
    ensures
        r@ == http_date_text(secs, nanos),
{
    let time = std::time::UNIX_EPOCH + std::time::Duration::new(secs, nanos);
    let mut values: Vec<http::HeaderValue> = Vec::new();
    headers::Header::encode(&headers::LastModified::from(time), &mut values);
    values.first().and_then(|v| v.to_str().ok()).unwrap_or_default().to_string()
}

/// The `Last-Modified` value of a file whose modification time is
/// `mtime_nanos` nanoseconds after the UNIX epoch: none when the time is
/// unknown or is the epoch itself (such a time is taken as not valid),
/// else the HTTP date of that time.
pub fn last_modified_value(mtime_nanos: Option<u128>) -> (r: Option<String>)
    requires
        mtime_nanos matches Some(m) ==> m < HTTP_DATE_LIMIT_SECS * 1_000_000_000,
    ensures
        match mtime_nanos {
            None => r is None,
            Some(m) => if m == 0 {
                r is None
            } else {
                r matches Some(v) && v@ == http_date_text(
                    (m / 1_000_000_000) as u64,
                    (m % 1_000_000_000) as u32,
                )
            },
        },
{
    match mtime_nanos {
        None => None,
        Some(m) => {
            if m == 0 {
                None
            } else {
                let secs = (m / 1_000_000_000) as u64;
                let nanos = (m % 1_000_000_000) as u32;
                Some(http_date(secs, nanos))
            }
        },
    }
}

} // verus!
