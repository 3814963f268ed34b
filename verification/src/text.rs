//! Character-level text helpers shared by the header parsers.
//!
//! Header values are handled as sequences of `char`s. Each helper comes with
//! a spec function that says what it computes, in the style of the `str`
//! methods that the parsers need (`trim`, `split`, `strip_prefix`, integer
//! parsing, number formatting).
use vstd::prelude::*;

verus! {

/// Appends one character to a `String` (`String::push`).
#[verifier::external_body]
pub(crate) fn push_char(s: &mut String, c: char)
    ensures
        final(s)@ == old(s)@.push(c),
{
    s.push(c);
}

/// Copies the characters of `s` into a vector.
pub fn chars_of(s: &str) -> (v: Vec<char>)
    ensures
        v@ == s@,
{
    let mut v: Vec<char> = Vec::new();
    for c in it: s.chars()
        invariant
            v@ == it.seq().take(it.index() as int),
            it.seq() == s@,
    {
        v.push(c);
    }
    v
}

/// Builds a `String` holding the characters of `v[lo..hi]`.
pub fn string_of(v: &[char], lo: usize, hi: usize) -> (s: String)
    requires
        lo <= hi <= v@.len(),
    ensures
        s@ == v@.subrange(lo as int, hi as int),
{
    let mut s = String::new();
    let mut i = lo;
    while i < hi
        invariant
            lo <= i <= hi <= v@.len(),
            s@ == v@.subrange(lo as int, i as int),
        decreases hi - i,
    {
        push_char(&mut s, v[i]);
        i = i + 1;
        assert(s@ =~= v@.subrange(lo as int, i as int));
    }
    s
}

/// Copies `v[lo..hi]` into a new vector.
pub fn slice_of(v: &[char], lo: usize, hi: usize) -> (r: Vec<char>)
    requires
        lo <= hi <= v@.len(),
    ensures
        r@ == v@.subrange(lo as int, hi as int),
{
    let mut r: Vec<char> = Vec::new();
    let mut i = lo;
    while i < hi
        invariant
            lo <= i <= hi <= v@.len(),
            r@ == v@.subrange(lo as int, i as int),
        decreases hi - i,
    {
        r.push(v[i]);
        i = i + 1;
        assert(r@ =~= v@.subrange(lo as int, i as int));
    }
    r
}

/// Appends the characters of `v` to `s`.
pub fn push_chars(s: &mut String, v: &[char])
    ensures
        final(s)@ == old(s)@ + v@,
{
    let mut i: usize = 0;
    while i < v.len()
        invariant
            i <= v@.len(),
            s@ == old(s)@ + v@.take(i as int),
        decreases v@.len() - i,
    {
        push_char(s, v[i]);
        i = i + 1;
        assert(s@ =~= old(s)@ + v@.take(i as int));
    }
    assert(v@.take(v@.len() as int) =~= v@);
}

/// `char::is_ascii_digit`.
pub open spec fn is_digit(c: char) -> bool {
    '0' <= c && c <= '9'
}

/// The value of an ASCII digit.
pub open spec fn digit_of(c: char) -> nat {
    (c as int - '0' as int) as nat
}

/// Every character of `s` is an ASCII digit.
pub open spec fn all_digits(s: Seq<char>) -> bool {
    forall|i: int| 0 <= i < s.len() ==> is_digit(#[trigger] s[i])
}

/// The number that the decimal digits `s` denote (most significant first).
pub open spec fn digits_value(s: Seq<char>) -> nat
    decreases s.len(),
{
    if s.len() == 0 {
        0
    } else {
        digits_value(s.drop_last()) * 10 + digit_of(s.last())
    }
}

/// What `str::parse::<u64>` gives: an optional `+` sign followed by at least
/// one ASCII digit, with a value that fits in 64 bits.
pub open spec fn parse_u64_spec(s: Seq<char>) -> Option<u64> {
    let d = if s.len() > 0 && s[0] == '+' {
        s.drop_first()
    } else {
        s
    };
    if d.len() > 0 && all_digits(d) && digits_value(d) <= u64::MAX {
        Some(digits_value(d) as u64)
    } else {
        None
    }
}

/// The value of a digit string never decreases when digits are appended.
pub proof fn lemma_digits_value_prefix(s: Seq<char>, k: int)
    requires
        0 <= k <= s.len(),
        all_digits(s),
    ensures
        digits_value(s.take(k)) <= digits_value(s),
    decreases s.len(),
{
    if k < s.len() {
        let t = s.drop_last();
        assert(t.take(k) =~= s.take(k));
        assert forall|i: int| 0 <= i < t.len() implies is_digit(#[trigger] t[i]) by {
            assert(t[i] == s[i]);
        }
        lemma_digits_value_prefix(t, k);
    } else {
        assert(s.take(k) =~= s);
    }
}

/// One step of the digit accumulation.
pub proof fn lemma_digits_value_step(s: Seq<char>, i: int)
    requires
        0 <= i < s.len(),
    ensures
        digits_value(s.take(i + 1)) == digits_value(s.take(i)) * 10 + digit_of(s[i]),
{
    assert(s.take(i + 1).drop_last() =~= s.take(i));
}

/// Converts an ASCII digit to its value.
pub fn digit_value(c: char) -> (d: u64)
    requires
        is_digit(c),
    ensures
        d == digit_of(c),
        d < 10,
{
    (c as u32 - '0' as u32) as u64
}

/// `str::parse::<u64>` on `v[lo..hi]`.
pub fn parse_u64(v: &[char], lo: usize, hi: usize) -> (r: Option<u64>)
    requires
        lo <= hi <= v@.len(),
    ensures
        r == parse_u64_spec(v@.subrange(lo as int, hi as int)),
{
    let ghost s = v@.subrange(lo as int, hi as int);
    let mut start = lo;
    if lo < hi && v[lo] == '+' {
        start = lo + 1;
    }
    let ghost d = v@.subrange(start as int, hi as int);
    assert(d =~= (if s.len() > 0 && s[0] == '+' { s.drop_first() } else { s }));
    if start == hi {
        return None;
    }
    let mut value: u64 = 0;
    let mut i = start;
    while i < hi
        invariant
            lo <= start <= i <= hi <= v@.len(),
            d == v@.subrange(start as int, hi as int),
            s == v@.subrange(lo as int, hi as int),
            d == (if s.len() > 0 && s[0] == '+' { s.drop_first() } else { s }),
            d.len() > 0,
            all_digits(d.take(i - start)),
            value == digits_value(d.take(i - start)),
        decreases hi - i,
    {
        let c = v[i];
        proof {
            assert(d[i - start] == c);
        }
        if !('0' <= c && c <= '9') {
            assert(!is_digit(d[i - start]));
            return None;
        }
        let dv = digit_value(c);
        proof {
            lemma_digits_value_step(d, i - start);
            assert forall|j: int| 0 <= j < i + 1 - start implies is_digit(
                #[trigger] d.take(i + 1 - start)[j],
            ) by {
                if j < i - start {
                    assert(d.take(i + 1 - start)[j] == d.take(i - start)[j]);
                }
            }
        }
        match value.checked_mul(10) {
            Some(m) => match m.checked_add(dv) {
                Some(n) => {
                    value = n;
                },
                None => {
                    proof {
                        overflow_means_none(d, i + 1 - start);
                    }
                    return None;
                },
            },
            None => {
                proof {
                    overflow_means_none(d, i + 1 - start);
                }
                return None;
            },
        }
        i = i + 1;
    }
    assert(d.take(hi - start) =~= d);
    Some(value)
}

/// If a prefix of a digit string already exceeds 64 bits, the parse fails.
proof fn overflow_means_none(d: Seq<char>, k: int)
    requires
        0 < k <= d.len(),
        all_digits(d.take(k)),
        digits_value(d.take(k)) > u64::MAX,
    ensures
        !(all_digits(d) && digits_value(d) <= u64::MAX),
{
    if all_digits(d) {
        lemma_digits_value_prefix(d, k);
    }
}

/// `char::is_whitespace` (the Unicode `White_Space` property).
pub open spec fn is_ws(c: char) -> bool {
    ||| ('\u{9}' <= c && c <= '\u{d}')
    ||| c == ' '
    ||| c == '\u{85}'
    ||| c == '\u{a0}'
    ||| c == '\u{1680}'
    ||| ('\u{2000}' <= c && c <= '\u{200a}')
    ||| c == '\u{2028}'
    ||| c == '\u{2029}'
    ||| c == '\u{202f}'
    ||| c == '\u{205f}'
    ||| c == '\u{3000}'
}

/// Executable `char::is_whitespace`.
pub fn is_whitespace(c: char) -> (b: bool)
    ensures
        b == is_ws(c),
{
    ('\u{9}' <= c && c <= '\u{d}') || c == ' ' || c == '\u{85}' || c == '\u{a0}' || c
        == '\u{1680}' || ('\u{2000}' <= c && c <= '\u{200a}') || c == '\u{2028}' || c == '\u{2029}'
        || c == '\u{202f}' || c == '\u{205f}' || c == '\u{3000}'
}

/// `str::trim_start`.
pub open spec fn trim_start(s: Seq<char>) -> Seq<char>
    decreases s.len(),
{
    if s.len() > 0 && is_ws(s[0]) {
        trim_start(s.drop_first())
    } else {
        s
    }
}

/// `str::trim_end`.
pub open spec fn trim_end(s: Seq<char>) -> Seq<char>
    decreases s.len(),
{
    if s.len() > 0 && is_ws(s.last()) {
        trim_end(s.drop_last())
    } else {
        s
    }
}

/// `str::trim`.
pub open spec fn trim(s: Seq<char>) -> Seq<char> {
    trim_end(trim_start(s))
}

/// Bounds `(a, b)` such that `v[a..b]` is `v[lo..hi]` without leading
/// white space.
pub fn trim_start_bounds(v: &[char], lo: usize, hi: usize) -> (a: usize)
    requires
        lo <= hi <= v@.len(),
    ensures
        lo <= a <= hi,
        v@.subrange(a as int, hi as int) == trim_start(v@.subrange(lo as int, hi as int)),
{
    let mut a = lo;
    while a < hi && is_whitespace(v[a])
        invariant
            lo <= a <= hi <= v@.len(),
            trim_start(v@.subrange(a as int, hi as int)) == trim_start(
                v@.subrange(lo as int, hi as int),
            ),
        decreases hi - a,
    {
        assert(v@.subrange(a as int, hi as int).drop_first() =~= v@.subrange(
            a + 1,
            hi as int,
        ));
        a = a + 1;
    }
    a
}

/// Bounds `(a, b)` such that `v[a..b]` is `v[lo..hi]` trimmed on both ends.
pub fn trim_bounds(v: &[char], lo: usize, hi: usize) -> (ab: (usize, usize))
    requires
        lo <= hi <= v@.len(),
    ensures
        lo <= ab.0 <= ab.1 <= hi,
        v@.subrange(ab.0 as int, ab.1 as int) == trim(v@.subrange(lo as int, hi as int)),
{
    let a = trim_start_bounds(v, lo, hi);
    let mut b = hi;
    while b > a && is_whitespace(v[b - 1])
        invariant
            lo <= a <= b <= hi <= v@.len(),
            trim_end(v@.subrange(a as int, b as int)) == trim_end(
                v@.subrange(a as int, hi as int),
            ),
        decreases b - a,
    {
        assert(v@.subrange(a as int, b as int).drop_last() =~= v@.subrange(
            a as int,
            b - 1,
        ));
        b = b - 1;
    }
    (a, b)
}

/// `s` starts with `p`.
pub open spec fn starts_with(s: Seq<char>, p: Seq<char>) -> bool {
    p.len() <= s.len() && s.take(p.len() as int) == p
}

/// The index of the first `c` in `s`, if any.
pub open spec fn find(s: Seq<char>, c: char) -> Option<int>
    decreases s.len(),
{
    if s.len() == 0 {
        None
    } else if s[0] == c {
        Some(0)
    } else {
        match find(s.drop_first(), c) {
            Some(i) => Some(i + 1),
            None => None,
        }
    }
}

/// What `find` gives, stated directly.
pub proof fn lemma_find(s: Seq<char>, c: char)
    ensures
        match find(s, c) {
            Some(i) => 0 <= i < s.len() && s[i] == c && forall|j: int|
                0 <= j < i ==> s[j] != c,
            None => forall|j: int| 0 <= j < s.len() ==> s[j] != c,
        },
    decreases s.len(),
{
    if s.len() > 0 {
        lemma_find(s.drop_first(), c);
        if s[0] != c {
            match find(s.drop_first(), c) {
                Some(i) => {
                    assert forall|j: int| 0 <= j < i + 1 implies s[j] != c by {
                        if j > 0 {
                            assert(s[j] == s.drop_first()[j - 1]);
                        }
                    }
                },
                None => {
                    assert forall|j: int| 0 <= j < s.len() implies s[j] != c by {
                        if j > 0 {
                            assert(s[j] == s.drop_first()[j - 1]);
                        }
                    }
                },
            }
        }
    }
}

/// The first index `i` in `lo..hi` with `v[i] == c`, or `hi`.
pub fn find_in(v: &[char], lo: usize, hi: usize, c: char) -> (i: usize)
    requires
        lo <= hi <= v@.len(),
    ensures
        lo <= i <= hi,
        i < hi ==> v@[i as int] == c,
        forall|j: int| lo <= j < i ==> v@[j] != c,
        i < hi ==> find(v@.subrange(lo as int, hi as int), c) == Some(i - lo),
        i == hi ==> find(v@.subrange(lo as int, hi as int), c) is None,
{
    let mut i = lo;
    while i < hi && v[i] != c
        invariant
            lo <= i <= hi <= v@.len(),
            forall|j: int| lo <= j < i ==> v@[j] != c,
        decreases hi - i,
    {
        i = i + 1;
    }
    proof {
        let s = v@.subrange(lo as int, hi as int);
        lemma_find(s, c);
        match find(s, c) {
            Some(k) => {
                assert(s[k] == v@[lo + k]);
                if k < i - lo {
                    assert(v@[lo + k] != c);
                }
                if i < hi && i - lo < k {
                    assert(s[i - lo] == v@[i as int]);
                }
            },
            None => {
                if i < hi {
                    assert(s[i - lo] == v@[i as int]);
                }
            },
        }
    }
    i
}

/// `str::split(sep)`: the pieces between separators, always at least one.
pub open spec fn split(s: Seq<char>, sep: char) -> Seq<Seq<char>>
    decreases s.len(),
{
    if s.len() == 0 {
        seq![Seq::empty()]
    } else if s[0] == sep {
        seq![Seq::empty()] + split(s.drop_first(), sep)
    } else {
        let rest = split(s.drop_first(), sep);
        rest.update(0, seq![s[0]] + rest[0])
    }
}

/// `split` never returns an empty list.
pub proof fn lemma_split_nonempty(s: Seq<char>, sep: char)
    ensures
        split(s, sep).len() >= 1,
    decreases s.len(),
{
    if s.len() > 0 {
        lemma_split_nonempty(s.drop_first(), sep);
    }
}

/// The pieces `(start, end)` of `v[lo..hi]` split at `sep`.
pub fn split_bounds(v: &[char], lo: usize, hi: usize, sep: char) -> (parts: Vec<(usize, usize)>)
    requires
        lo <= hi <= v@.len(),
    ensures
        parts@.len() == split(v@.subrange(lo as int, hi as int), sep).len(),
        forall|k: int|
            0 <= k < parts@.len() ==> {
                let (a, b) = #[trigger] parts@[k];
                &&& lo <= a <= b <= hi
                &&& v@.subrange(a as int, b as int) == split(
                    v@.subrange(lo as int, hi as int),
                    sep,
                )[k]
            },
{
    let ghost s = v@.subrange(lo as int, hi as int);
    let mut parts: Vec<(usize, usize)> = Vec::new();
    let mut start = lo;
    let mut i = lo;
    proof {
        lemma_split_nonempty(s, sep);
        assert(s.skip(0) =~= s);
        let x = split(s, sep);
        assert(x.update(0, Seq::<char>::empty() + x[0]) =~= x);
    }
    while i < hi
        invariant
            lo <= start <= i <= hi <= v@.len(),
            s == v@.subrange(lo as int, hi as int),
            split(s.skip(i - lo), sep).len() >= 1,
            split(s, sep) == parts@.map_values(|p: (usize, usize)| v@.subrange(p.0 as int, p.1 as int))
                + {
                let rest = split(s.skip(i - lo), sep);
                rest.update(0, v@.subrange(start as int, i as int) + rest[0])
            },
            forall|k: int|
                0 <= k < parts@.len() ==> {
                    let (a, b) = #[trigger] parts@[k];
                    lo <= a <= b <= hi
                },
        decreases hi - i,
    {
        let ghost t = s.skip(i - lo);
        let ghost pre = parts@.map_values(
            |p: (usize, usize)| v@.subrange(p.0 as int, p.1 as int),
        );
        assert(t[0] == v@[i as int]);
        assert(t.drop_first() =~= s.skip(i + 1 - lo));
        proof {
            lemma_split_nonempty(t.drop_first(), sep);
        }
        if v[i] == sep {
            parts.push((start, i));
            proof {
                let r = split(t.drop_first(), sep);
                let cur = v@.subrange(start as int, i as int);
                assert(split(t, sep) == seq![Seq::<char>::empty()] + r);
                let lhs = split(t, sep).update(0, cur + split(t, sep)[0]);
                assert(cur + Seq::<char>::empty() =~= cur);
                assert(lhs =~= seq![cur] + r);
                assert(v@.subrange((i + 1) as int, (i + 1) as int) =~= Seq::<char>::empty());
                assert(r.update(0, Seq::<char>::empty() + r[0]) =~= r);
                let newpre = parts@.map_values(
                    |p: (usize, usize)| v@.subrange(p.0 as int, p.1 as int),
                );
                assert(newpre =~= pre.push(cur));
                assert(pre + lhs =~= newpre + r);
            }
            start = i + 1;
        } else {
            proof {
                let r = split(t.drop_first(), sep);
                let cur = v@.subrange(start as int, i as int);
                let cur2 = v@.subrange(start as int, i + 1);
                assert(cur2 =~= cur + seq![t[0]]);
                assert(cur2 + r[0] =~= cur + (seq![t[0]] + r[0]));
                assert(split(t, sep) == r.update(0, seq![t[0]] + r[0]));
                assert(split(t, sep).update(0, cur + split(t, sep)[0]) =~= r.update(
                    0,
                    cur2 + r[0],
                ));
            }
        }
        i = i + 1;
    }
    parts.push((start, hi));
    proof {
        let t = s.skip(i - lo);
        assert(t =~= Seq::<char>::empty());
        let cur = v@.subrange(start as int, hi as int);
        assert(split(t, sep) =~= seq![Seq::<char>::empty()]);
        assert(cur + Seq::<char>::empty() =~= cur);
        let lhs = split(t, sep).update(0, cur + split(t, sep)[0]);
        assert(lhs =~= seq![cur]);
        let newpre = parts@.map_values(|p: (usize, usize)| v@.subrange(p.0 as int, p.1 as int));
        assert(split(s, sep) =~= newpre);
        assert forall|k: int| 0 <= k < parts@.len() implies {
            let (a, b) = #[trigger] parts@[k];
            &&& lo <= a <= b <= hi
            &&& v@.subrange(a as int, b as int) == split(v@.subrange(lo as int, hi as int), sep)[k]
        } by {
            assert(newpre[k] == v@.subrange(parts@[k].0 as int, parts@[k].1 as int));
        }
    }
    parts
}

} // verus!

verus! {

/// Whether two character slices are equal.
pub fn chars_eq(a: &[char], b: &[char]) -> (r: bool)
    ensures
        r == (a@ == b@),
{
    if a.len() != b.len() {
        return false;
    }
    let mut i: usize = 0;
    while i < a.len()
        invariant
            i <= a@.len() == b@.len(),
            forall|j: int| 0 <= j < i ==> a@[j] == b@[j],
        decreases a@.len() - i,
    {
        if a[i] != b[i] {
            return false;
        }
        i = i + 1;
    }
    assert(a@ =~= b@);
    true
}

/// Whether two strings hold the same characters.
pub fn str_eq(a: &str, b: &str) -> (r: bool)
    ensures
        r == (a@ == b@),
{
    let x = chars_of(a);
    let y = chars_of(b);
    chars_eq(x.as_slice(), y.as_slice())
}

} // verus!

verus! {

/// `str::replace(from, to)` for a non-empty `from`: the leftmost
/// occurrences of `from`, scanning left to right without overlap, each
/// replaced by `to`.
pub open spec fn replace_all(s: Seq<char>, from: Seq<char>, to: Seq<char>) -> Seq<char>
    recommends
        from.len() > 0,
    decreases s.len(),
{
    if from.len() == 0 || s.len() < from.len() {
        s
    } else if s.take(from.len() as int) == from {
        to + replace_all(s.skip(from.len() as int), from, to)
    } else {
        seq![s[0]] + replace_all(s.drop_first(), from, to)
    }
}

/// Whether `p` occurs in `v` at position `i`.
pub fn matches_at(v: &[char], i: usize, p: &[char]) -> (r: bool)
    requires
        i <= v@.len(),
    ensures
        r == (i + p@.len() <= v@.len() && v@.subrange(i as int, i + p@.len()) == p@),
{
    if p.len() > v.len() - i {
        return false;
    }
    let mut j: usize = 0;
    while j < p.len()
        invariant
            i + p@.len() <= v@.len() <= usize::MAX,
            j <= p@.len(),
            forall|t: int| 0 <= t < j ==> v@[i + t] == p@[t],
        decreases p@.len() - j,
    {
        if v[i + j] != p[j] {
            proof {
                assert(v@.subrange(i as int, i + p@.len())[j as int] == v@[i + j]);
            }
            return false;
        }
        j = j + 1;
    }
    assert(v@.subrange(i as int, i + p@.len()) =~= p@);
    true
}

/// Replaces every occurrence of a non-empty `from` in `s` by `to`.
pub fn replace_str(s: &str, from: &str, to: &str) -> (r: String)
    requires
        from@.len() > 0,
    ensures
        r@ == replace_all(s@, from@, to@),
{
    let v = chars_of(s);
    let f = chars_of(from);
    let t = chars_of(to);
    let mut out = String::new();
    let mut i: usize = 0;
    assert(v@.skip(0) =~= v@);
    while i < v.len()
        invariant
            v@ == s@,
            f@ == from@,
            t@ == to@,
            f@.len() > 0,
            i <= v@.len(),
            out@ + replace_all(v@.skip(i as int), f@, t@) == replace_all(s@, from@, to@),
        decreases v@.len() - i,
    {
        let ghost rest = v@.skip(i as int);
        if matches_at(v.as_slice(), i, f.as_slice()) {
            proof {
                assert(rest.take(f@.len() as int) =~= v@.subrange(i as int, i + f@.len()));
                assert(rest.skip(f@.len() as int) =~= v@.skip(i + f@.len()));
                assert(out@ + t@ + replace_all(v@.skip(i + f@.len()), f@, t@) =~= out@ + (t@
                    + replace_all(rest.skip(f@.len() as int), f@, t@)));
            }
            push_chars(&mut out, t.as_slice());
            i = i + f.len();
        } else {
            proof {
                if rest.len() >= f@.len() {
                    assert(rest.take(f@.len() as int) =~= v@.subrange(i as int, i + f@.len()));
                }
                assert(rest.drop_first() =~= v@.skip(i + 1));
                assert(rest[0] == v@[i as int]);
                if rest.len() < f@.len() {
                    assert(replace_all(rest, f@, t@) == rest);
                    // The tail is too short to hold `from` anywhere.
                    lemma_replace_short(rest.drop_first(), f@, t@);
                }
                assert(out@.push(v@[i as int]) + replace_all(v@.skip(i + 1), f@, t@) =~= out@
                    + (seq![rest[0]] + replace_all(rest.drop_first(), f@, t@)));
            }
            push_char(&mut out, v[i]);
            i = i + 1;
        }
    }
    assert(v@.skip(i as int) =~= Seq::<char>::empty());
    assert(out@ + Seq::<char>::empty() =~= out@);
    out
}

/// Text shorter than `from` is left as it is.
pub proof fn lemma_replace_short(s: Seq<char>, from: Seq<char>, to: Seq<char>)
    requires
        s.len() < from.len(),
    ensures
        replace_all(s, from, to) == s,
{
}

/// `str::trim_start_matches(p)` for a non-empty `p`: every leading copy
/// of `p` removed.
pub open spec fn trim_start_matches(s: Seq<char>, p: Seq<char>) -> Seq<char>
    recommends
        p.len() > 0,
    decreases s.len(),
{
    if p.len() > 0 && s.len() >= p.len() && s.take(p.len() as int) == p {
        trim_start_matches(s.skip(p.len() as int), p)
    } else {
        s
    }
}

/// Removes every leading copy of a non-empty `p` from `s`.
pub fn trim_start_str(s: &str, p: &str) -> (r: String)
    requires
        p@.len() > 0,
    ensures
        r@ == trim_start_matches(s@, p@),
{
    let v = chars_of(s);
    let q = chars_of(p);
    let n: usize = v.len();
    let mut i: usize = 0;
    assert(v@.skip(0) =~= v@);
    while matches_at(v.as_slice(), i, q.as_slice())
        invariant
            v@ == s@,
            q@ == p@,
            q@.len() > 0,
            i <= v@.len() <= usize::MAX,
            trim_start_matches(v@.skip(i as int), q@) == trim_start_matches(s@, p@),
        decreases v@.len() - i,
    {
        proof {
            let rest = v@.skip(i as int);
            assert(rest.take(q@.len() as int) =~= v@.subrange(i as int, i + q@.len()));
            assert(rest.skip(q@.len() as int) =~= v@.skip(i + q@.len()));
        }
        i = i + q.len();
    }
    proof {
        let rest = v@.skip(i as int);
        if rest.len() >= q@.len() {
            assert(rest.take(q@.len() as int) =~= v@.subrange(i as int, i + q@.len()));
        }
    }
    assert(v@.subrange(i as int, n as int) =~= v@.skip(i as int));
    string_of(v.as_slice(), i, n)
}

} // verus!
