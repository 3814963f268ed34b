//! The file a request path names under the root directory.
use vstd::prelude::*;

use vstd::utf8::{decode_utf8, encode_utf8, valid_utf8};

use crate::text::{chars_of, lemma_split_nonempty, split, split_bounds, string_of};

verus! {

/// The value of an ASCII hexadecimal digit (either case), if the byte is
/// one.
pub open spec fn hex_digit_value(b: u8) -> Option<nat> {
    if 48 <= b <= 57 {
        Some((b - 48) as nat)
    } else if 97 <= b <= 102 {
        Some((b - 87) as nat)
    } else if 65 <= b <= 70 {
        Some((b - 55) as nat)
    } else {
        None
    }
}

/// Percent-decoding of bytes: each `%` followed by two hexadecimal digits
/// becomes the byte they spell; every other byte (a `%` without two digits
/// after it among them) is kept.
pub open spec fn percent_decode_bytes(b: Seq<u8>) -> Seq<u8>
    decreases b.len(),
{
    if b.len() == 0 {
        Seq::empty()
    } else if b.len() >= 3 && b[0] == 37 && hex_digit_value(b[1]) is Some && hex_digit_value(
        b[2],
    ) is Some {
        seq![(hex_digit_value(b[1]).unwrap() * 16 + hex_digit_value(b[2]).unwrap()) as u8]
            + percent_decode_bytes(b.skip(3))
    } else {
        seq![b[0]] + percent_decode_bytes(b.drop_first())
    }
}

/// A request path percent-decoded: the text of the decoded UTF-8 bytes,
/// or nothing when they are not UTF-8.
pub open spec fn percent_decoded(tail: Seq<char>) -> Option<Seq<char>> {
    let d = percent_decode_bytes(encode_utf8(tail));
    if valid_utf8(d) {
        Some(decode_utf8(d))
    } else {
        None
    }
}

/// `percent_decode_str(tail).decode_utf8()`: the bytes of the text
/// percent-decoded (see `percent_decode_bytes`), read as UTF-8.
#[verifier::external_body]
fn decode_tail_path(tail: &str) -> (r: Option<String>)
    ensures
        match r {
            Some(s) => percent_decoded(tail@) == Some(s@),
            None => percent_decoded(tail@) is None,
        },
{
    percent_encoding::percent_decode_str(tail).decode_utf8().ok().map(|s| s.into_owned())
}

/// Whether a `/`-separated piece of a path is a normal component: not
/// empty, `.` or `..`.
pub open spec fn is_normal_component(c: Seq<char>) -> bool {
    c.len() > 0 && c != seq!['.'] && c != seq!['.', '.']
}

/// A path with a component pushed on it (`PathBuf::push` of a relative
/// component): joined with `/` unless the path is empty or ends in `/`.
pub open spec fn push_component(base: Seq<char>, c: Seq<char>) -> Seq<char> {
    if base.len() == 0 || base.last() == '/' {
        base + c
    } else {
        base + seq!['/'] + c
    }
}

/// The base with the normal ones among `parts` pushed on it in order;
/// `..`, `.` and empty pieces are skipped, so the result never leaves the
/// base.
pub open spec fn push_normal(base: Seq<char>, parts: Seq<Seq<char>>) -> Seq<char>
    decreases parts.len(),
{
    if parts.len() == 0 {
        base
    } else {
        let b = if is_normal_component(parts[0]) {
            push_component(base, parts[0])
        } else {
            base
        };
        push_normal(b, parts.drop_first())
    }
}

/// The file path of a request path under a base directory, or the status
/// 422 when the decoded path is not UTF-8.
pub open spec fn sanitize_path_spec(base: Seq<char>, tail: Seq<char>) -> Result<Seq<char>, u16> {
    match percent_decoded(tail) {
        None => Err(422),
        Some(d) => Ok(push_normal(base, split(d, '/'))),
    }
}

/// Appends a component to a path.
fn push_to(path: &mut String, v: &[char], a: usize, b: usize)
    requires
        a <= b <= v@.len(),
    ensures
        final(path)@ == push_component(old(path)@, v@.subrange(a as int, b as int)),
{
    let p = chars_of(path.as_str());
    let n = p.len();
    if !(n == 0 || p[n - 1] == '/') {
        path.append("/");
    }
    let c = string_of(v, a, b);
    path.append(c.as_str());
    proof {
        reveal_strlit("/");
        if n > 0 {
            assert(old(path)@.last() == p@[n - 1]);
        }
    }
    assert(path@ =~= push_component(old(path)@, v@.subrange(a as int, b as int)));
}

/// Joins a request path to the base directory, skipping every component
/// that is not a normal name, so that `..` cannot climb out of the base.
pub fn sanitize_path(base: &str, tail: &str) -> (r: Result<String, u16>)
    ensures
        match sanitize_path_spec(base@, tail@) {
            Ok(p) => r matches Ok(x) && x@ == p,
            Err(c) => r == Err::<String, u16>(c),
        },
{
    let decoded = match decode_tail_path(tail) {
        None => {
            return Err(422);
        },
        Some(d) => d,
    };
    let v = chars_of(decoded.as_str());
    let n: usize = v.len();
    assert(v@.subrange(0, n as int) =~= decoded@);
    let parts = split_bounds(v.as_slice(), 0, n, '/');
    let ghost ps = split(decoded@, '/');
    let mut out = String::from_str(base);
    let mut k: usize = 0;
    assert(ps.skip(0) =~= ps);
    while k < parts.len()
        invariant
            k <= parts@.len() == ps.len(),
            n == v@.len(),
            v@.subrange(0, n as int) == decoded@,
            ps == split(decoded@, '/'),
            forall|j: int|
                0 <= j < parts@.len() ==> {
                    let (x, y) = #[trigger] parts@[j];
                    &&& 0 <= x <= y <= n
                    &&& v@.subrange(x as int, y as int) == ps[j]
                },
            push_normal(out@, ps.skip(k as int)) == push_normal(base@, ps),
        decreases parts@.len() - k,
    {
        let (x, y) = parts[k];
        let ghost c = v@.subrange(x as int, y as int);
        assert(ps.skip(k as int)[0] == c);
        assert(ps.skip(k as int).drop_first() =~= ps.skip(k + 1));
        let len = y - x;
        let is_dot = len == 1 && v[x] == '.';
        let is_dotdot = len == 2 && v[x] == '.' && v[x + 1] == '.';
        proof {
            if len == 1 {
                assert(is_dot ==> c =~= seq!['.']);
                assert(c == seq!['.'] ==> c[0] == '.');
            }
            if len == 2 {
                assert(is_dotdot ==> c =~= seq!['.', '.']);
                assert(c == seq!['.', '.'] ==> c[0] == '.' && c[1] == '.');
            }
            if len != 1 {
                assert(c.len() != 1);
            }
            if len != 2 {
                assert(c.len() != 2);
            }
        }
        if len > 0 && !is_dot && !is_dotdot {
            push_to(&mut out, v.as_slice(), x, y);
        }
        k = k + 1;
    }
    assert(ps.skip(k as int) =~= Seq::<Seq<char>>::empty());
    Ok(out)
}

} // verus!

verus! {

/// A sanitized path never leaves its base: the base is a prefix of it.
pub proof fn lemma_push_normal_extends_base(base: Seq<char>, parts: Seq<Seq<char>>)
    ensures
        base.len() <= push_normal(base, parts).len(),
        push_normal(base, parts).subrange(0, base.len() as int) == base,
    decreases parts.len(),
{
    if parts.len() > 0 {
        let b = if is_normal_component(parts[0]) {
            push_component(base, parts[0])
        } else {
            base
        };
        lemma_push_normal_extends_base(b, parts.drop_first());
        let r = push_normal(b, parts.drop_first());
        assert(b.subrange(0, base.len() as int) =~= base);
        assert(r.subrange(0, base.len() as int) =~= r.subrange(0, b.len() as int).subrange(
            0,
            base.len() as int,
        ));
    } else {
        assert(base.subrange(0, base.len() as int) =~= base);
    }
}

/// The path made of `names`, each after a `/`: `/a/b` for `a` and `b`.
pub open spec fn slash_joined(names: Seq<Seq<char>>) -> Seq<char>
    decreases names.len(),
{
    if names.len() == 0 {
        Seq::empty()
    } else {
        seq!['/'] + names[0] + slash_joined(names.drop_first())
    }
}

/// A name of a path: not empty, no `/`, and neither `.` nor `..`.
pub open spec fn is_path_name(c: Seq<char>) -> bool {
    &&& c.len() > 0
    &&& c != seq!['.']
    &&& c != seq!['.', '.']
    &&& forall|j: int| 0 <= j < c.len() ==> #[trigger] c[j] != '/'
}

/// Splitting text without `/` glued to the front of `r` extends the first
/// piece of `r`.
proof fn lemma_split_glue(x: Seq<char>, r: Seq<char>)
    requires
        forall|j: int| 0 <= j < x.len() ==> #[trigger] x[j] != '/',
    ensures
        split(x + r, '/') == split(r, '/').update(0, x + split(r, '/')[0]),
    decreases x.len(),
{
    lemma_split_nonempty(r, '/');
    if x.len() == 0 {
        assert(x + r =~= r);
        assert(split(r, '/').update(0, x + split(r, '/')[0]) =~= split(r, '/'));
    } else {
        let t = x.drop_first();
        assert forall|j: int| 0 <= j < t.len() implies #[trigger] t[j] != '/' by {
            assert(t[j] == x[j + 1]);
        }
        lemma_split_glue(t, r);
        assert((x + r).drop_first() =~= t + r);
        assert((x + r)[0] == x[0]);
        let rest = split(t + r, '/');
        lemma_split_nonempty(t + r, '/');
        assert(split(x + r, '/') == rest.update(0, seq![x[0]] + rest[0]));
        assert(seq![x[0]] + (t + split(r, '/')[0]) =~= x + split(r, '/')[0]);
        assert(rest.update(0, seq![x[0]] + rest[0]) =~= split(r, '/').update(
            0,
            x + split(r, '/')[0],
        ));
    }
}

/// The pieces of a path made of names are an empty piece and the names.
proof fn lemma_split_slash_joined(names: Seq<Seq<char>>)
    requires
        forall|i: int| 0 <= i < names.len() ==> is_path_name(#[trigger] names[i]),
    ensures
        split(slash_joined(names), '/') == seq![Seq::<char>::empty()] + names,
    decreases names.len(),
{
    if names.len() == 0 {
        assert(split(Seq::<char>::empty(), '/') =~= seq![Seq::<char>::empty()]);
    } else {
        let rest = names.drop_first();
        assert forall|i: int| 0 <= i < rest.len() implies is_path_name(#[trigger] rest[i]) by {
            assert(rest[i] == names[i + 1]);
        }
        lemma_split_slash_joined(rest);
        let r = slash_joined(rest);
        assert(is_path_name(names[0]));
        lemma_split_glue(names[0], r);
        let s = slash_joined(names);
        assert(s =~= seq!['/'] + (names[0] + r));
        assert(s[0] == '/');
        assert(s.drop_first() =~= names[0] + r);
        assert(split(r, '/')[0] == Seq::<char>::empty());
        assert(names[0] + Seq::<char>::empty() =~= names[0]);
        assert(split(names[0] + r, '/') =~= names);
        assert(split(s, '/') =~= seq![Seq::<char>::empty()] + names);
    }
}

/// Pushing names on a base that is not empty and does not end in `/`
/// joins each with a `/`.
proof fn lemma_push_names(base: Seq<char>, names: Seq<Seq<char>>)
    requires
        base.len() > 0,
        base.last() != '/',
        forall|i: int| 0 <= i < names.len() ==> is_path_name(#[trigger] names[i]),
    ensures
        push_normal(base, names) == base + slash_joined(names),
    decreases names.len(),
{
    if names.len() == 0 {
        assert(base + slash_joined(names) =~= base);
    } else {
        let n = names[0];
        assert(is_path_name(n));
        assert(is_normal_component(n));
        let b = push_component(base, n);
        assert(b == base + seq!['/'] + n);
        assert(b.last() == n.last());
        assert(n.last() == n[n.len() - 1]);
        let rest = names.drop_first();
        assert forall|i: int| 0 <= i < rest.len() implies is_path_name(#[trigger] rest[i]) by {
            assert(rest[i] == names[i + 1]);
        }
        lemma_push_names(b, rest);
        assert(base + slash_joined(names) =~= b + slash_joined(rest));
    }
}

/// A request path made of names (any name: one that starts with a dot,
/// such as `.well-known`, too) is served from the base followed by
/// exactly those names, in order, each after a `/`. Only empty pieces,
/// `.` and `..` are dropped.
pub proof fn lemma_sanitize_keeps_every_name(base: Seq<char>, tail: Seq<char>, names: Seq<Seq<char>>)
    requires
        base.len() > 0,
        base.last() != '/',
        forall|i: int| 0 <= i < names.len() ==> is_path_name(#[trigger] names[i]),
        percent_decoded(tail) == Some(slash_joined(names)),
    ensures
        sanitize_path_spec(base, tail) == Ok::<Seq<char>, u16>(base + slash_joined(names)),
{
    lemma_split_slash_joined(names);
    let parts = seq![Seq::<char>::empty()] + names;
    assert(parts.drop_first() =~= names);
    assert(!is_normal_component(parts[0]));
    lemma_push_names(base, names);
}

/// The names among some pieces of a path, in order: the pieces that are
/// neither empty nor `.` nor `..`.
pub open spec fn path_names(parts: Seq<Seq<char>>) -> Seq<Seq<char>>
    decreases parts.len(),
{
    if parts.len() == 0 {
        Seq::empty()
    } else if is_path_name(parts[0]) {
        seq![parts[0]] + path_names(parts.drop_first())
    } else {
        path_names(parts.drop_first())
    }
}

/// The names among pieces are names.
proof fn lemma_path_names_are_names(parts: Seq<Seq<char>>)
    ensures
        forall|i: int|
            0 <= i < path_names(parts).len() ==> is_path_name(#[trigger] path_names(parts)[i]),
    decreases parts.len(),
{
    if parts.len() > 0 {
        lemma_path_names_are_names(parts.drop_first());
        let rest = path_names(parts.drop_first());
        if is_path_name(parts[0]) {
            assert forall|i: int|
                0 <= i < path_names(parts).len() implies is_path_name(
                #[trigger] path_names(parts)[i],
            ) by {
                if i > 0 {
                    assert(path_names(parts)[i] == rest[i - 1]);
                }
            }
        }
    }
}

/// No piece of a split holds the separator.
proof fn lemma_split_pieces(s: Seq<char>)
    ensures
        forall|i: int, j: int|
            0 <= i < split(s, '/').len() && 0 <= j < split(s, '/')[i].len() ==> #[trigger] split(
                s,
                '/',
            )[i][j] != '/',
    decreases s.len(),
{
    if s.len() > 0 {
        let t = s.drop_first();
        lemma_split_pieces(t);
        lemma_split_nonempty(t, '/');
        let rest = split(t, '/');
        if s[0] == '/' {
            assert forall|i: int, j: int|
                0 <= i < split(s, '/').len() && 0 <= j < split(s, '/')[i].len() implies #[trigger] split(
                s,
                '/',
            )[i][j] != '/' by {
                if i > 0 {
                    assert(split(s, '/')[i] == rest[i - 1]);
                }
            }
        } else {
            assert forall|i: int, j: int|
                0 <= i < split(s, '/').len() && 0 <= j < split(s, '/')[i].len() implies #[trigger] split(
                s,
                '/',
            )[i][j] != '/' by {
                if i == 0 {
                    let p = seq![s[0]] + rest[0];
                    assert(split(s, '/')[0] == p);
                    if j > 0 {
                        assert(p[j] == rest[0][j - 1]);
                    }
                } else {
                    assert(split(s, '/')[i] == rest[i]);
                }
            }
        }
    }
}

/// Pushing pieces without `/` on a base that is not empty and does not
/// end in `/` adds exactly their names, each after a `/`.
proof fn lemma_push_pieces(base: Seq<char>, parts: Seq<Seq<char>>)
    requires
        base.len() > 0,
        base.last() != '/',
        forall|i: int, j: int|
            0 <= i < parts.len() && 0 <= j < parts[i].len() ==> #[trigger] parts[i][j] != '/',
    ensures
        push_normal(base, parts) == base + slash_joined(path_names(parts)),
    decreases parts.len(),
{
    if parts.len() == 0 {
        assert(base + slash_joined(path_names(parts)) =~= base);
    } else {
        let p = parts[0];
        let rest = parts.drop_first();
        assert forall|i: int, j: int|
            0 <= i < rest.len() && 0 <= j < rest[i].len() implies #[trigger] rest[i][j] != '/' by {
            assert(rest[i] == parts[i + 1]);
        }
        assert forall|j: int| 0 <= j < p.len() implies #[trigger] p[j] != '/' by {
            assert(parts[0][j] != '/');
        }
        if is_path_name(p) {
            assert(is_normal_component(p));
            let b = push_component(base, p);
            assert(b == base + seq!['/'] + p);
            assert(b.last() == p.last());
            assert(p.last() == p[p.len() - 1]);
            lemma_push_pieces(b, rest);
            let ns = path_names(parts);
            assert(ns == seq![p] + path_names(rest));
            assert(ns[0] == p);
            assert(ns.drop_first() =~= path_names(rest));
            assert(base + slash_joined(ns) =~= b + slash_joined(path_names(rest)));
        } else {
            assert(!is_normal_component(p));
            lemma_push_pieces(base, rest);
        }
    }
}

/// What a request path maps to: for a base that is not empty and does not
/// end in `/`, the base followed by every name of the decoded path (every
/// `/`-separated piece but the empty ones, `.` and `..`), in order, each
/// after a `/`; and 422 when the decoded path is not UTF-8.
pub proof fn lemma_sanitize_result(base: Seq<char>, tail: Seq<char>)
    requires
        base.len() > 0,
        base.last() != '/',
    ensures
        percent_decoded(tail) matches Some(d) ==> sanitize_path_spec(base, tail) == Ok::<
            Seq<char>,
            u16,
        >(base + slash_joined(path_names(split(d, '/')))),
        percent_decoded(tail) is None ==> sanitize_path_spec(base, tail) == Err::<Seq<char>, u16>(
            422,
        ),
        forall|i: int|
            0 <= i < path_names(split(percent_decoded(tail).unwrap(), '/')).len() ==> is_path_name(
                #[trigger] path_names(split(percent_decoded(tail).unwrap(), '/'))[i],
            ),
{
    let d = percent_decoded(tail).unwrap();
    lemma_path_names_are_names(split(d, '/'));
    if percent_decoded(tail) is Some {
        lemma_split_pieces(d);
        lemma_push_pieces(base, split(d, '/'));
    }
}

/// Bytes without `%` are left as they are by percent-decoding, and a `%`
/// followed by two hexadecimal digits before such bytes becomes the byte
/// they spell.
pub proof fn lemma_percent_decode_bytes(b: Seq<u8>, h: u8, l: u8)
    ensures
        (forall|i: int| 0 <= i < b.len() ==> #[trigger] b[i] != 37) ==> percent_decode_bytes(b)
            == b,
        (forall|i: int| 0 <= i < b.len() ==> #[trigger] b[i] != 37) && hex_digit_value(h) is Some
            && hex_digit_value(l) is Some ==> percent_decode_bytes(seq![37u8, h, l] + b) == seq![
            (hex_digit_value(h).unwrap() * 16 + hex_digit_value(l).unwrap()) as u8,
        ] + b,
    decreases b.len(),
{
    if forall|i: int| 0 <= i < b.len() ==> #[trigger] b[i] != 37 {
        if b.len() > 0 {
            let t = b.drop_first();
            assert forall|i: int| 0 <= i < t.len() implies #[trigger] t[i] != 37 by {
                assert(t[i] == b[i + 1]);
            }
            lemma_percent_decode_bytes(t, h, l);
            assert(b[0] != 37);
            assert(seq![b[0]] + t =~= b);
        } else {
            assert(percent_decode_bytes(b) =~= b);
        }
        let p = seq![37u8, h, l] + b;
        assert(p.skip(3) =~= b);
        assert(p[0] == 37 && p[1] == h && p[2] == l);
        assert(p.len() >= 3);
        if hex_digit_value(h) is Some && hex_digit_value(l) is Some {
            assert(percent_decode_bytes(p) == seq![
                (hex_digit_value(p[1]).unwrap() * 16 + hex_digit_value(p[2]).unwrap()) as u8,
            ] + percent_decode_bytes(p.skip(3)));
        }
    }
}

/// A request path whose UTF-8 bytes hold no `%` decodes to itself.
pub proof fn lemma_percent_decoded_without_percent(tail: Seq<char>)
    requires
        forall|i: int| 0 <= i < encode_utf8(tail).len() ==> #[trigger] encode_utf8(tail)[i] != 37,
    ensures
        percent_decoded(tail) == Some(tail),
{
    lemma_percent_decode_bytes(encode_utf8(tail), 0, 0);
    vstd::utf8::encode_utf8_valid_utf8(tail);
    vstd::utf8::encode_utf8_decode_utf8(tail);
}

} // verus!

