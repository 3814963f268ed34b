//! Weak `ETag` validators for static files.
//!
//! The validator is derived from the file metadata only: the modification
//! time in nanoseconds since the UNIX epoch and the length in bytes, both
//! in lowercase hexadecimal, in the nginx-style format
//! `W/"<mtime_hex>-<len_hex>"`. No file content is read or hashed.
use vstd::prelude::*;

use crate::numfmt::{hex, is_hex_char, lemma_hex, lemma_hex_injective, lemma_hex_len, pow16, push_hex};
use crate::text::{chars_of, push_char, starts_with};

verus! {

/// Maximum width of a generated value: `W/"` (3) + 32 hex digits (mtime) +
/// `-` (1) + 16 hex digits (len) + `"` (1).
pub const ETAG_MAX_LEN: usize = 3 + 32 + 1 + 16 + 1;

/// The weak prefix `W/"`.
pub open spec fn weak_prefix() -> Seq<char> {
    seq!['W', '/', '"']
}

/// The validator for a modification time and a length.
pub open spec fn etag_spec(mtime_nanos: nat, len: nat) -> Seq<char> {
    weak_prefix() + hex(mtime_nanos) + seq!['-'] + hex(len) + seq!['"']
}

/// A character that a header value may hold.
pub open spec fn is_header_char(c: char) -> bool {
    c == '\t' || (' ' <= c && c != '\u{7f}')
}

/// No `"` among `s[lo..hi]`.
pub open spec fn no_quote(s: Seq<char>, lo: int, hi: int) -> bool {
    forall|i: int| lo <= i < hi ==> #[trigger] s[i] != '"'
}

/// An entity tag (RFC 7232, section 2.3): header text of the form
/// `"<opaque>"` (strong) or `W/"<opaque>"` (weak), the opaque part without
/// `"`.
pub open spec fn is_entity_tag(s: Seq<char>) -> bool {
    &&& forall|i: int| 0 <= i < s.len() ==> is_header_char(#[trigger] s[i])
    &&& s.len() >= 2
    &&& s.last() == '"'
    &&& if s[0] == '"' {
        no_quote(s, 1, s.len() - 1)
    } else {
        s.len() >= 4 && starts_with(s, weak_prefix()) && no_quote(s, 3, s.len() - 1)
    }
}

/// No space or tab in a text.
pub open spec fn has_no_blank(s: Seq<char>) -> bool {
    forall|i: int| 0 <= i < s.len() ==> #[trigger] s[i] != ' ' && s[i] != '\t'
}

/// `headers::ETag`, the typed `ETag` header.
#[verifier::external_type_specification]
#[verifier::external_body]
pub struct ExETag(headers::ETag);

/// `str::parse::<headers::ETag>()`: the text is read as a header value and
/// then as an entity tag, so it parses exactly when it is header text of
/// the form `"<opaque>"` or `W/"<opaque>"` with no `"` inside. In a debug
/// build the crate asserts that the opaque part holds no space or tab,
/// which the `requires` rules out.
#[verifier::external_body]
fn parse_etag(s: &str) -> (r: Option<headers::ETag>)
    requires
        has_no_blank(s@),
    ensures
        r is Some <==> is_entity_tag(s@),
{
    s.parse::<headers::ETag>().ok()
}

/// A parsed entity tag: the typed header and its text.
#[derive(Debug, PartialEq, Eq)]
pub struct EntityTag {
    tag: headers::ETag,
    value: String,
}

impl View for EntityTag {
    type V = Seq<char>;

    closed spec fn view(&self) -> Seq<char> {
        self.value@
    }
}

impl EntityTag {
    /// The typed header.
    pub closed spec fn typed_spec(&self) -> headers::ETag {
        self.tag
    }

    /// Reads an entity tag with `headers::ETag`; `None` unless `s` is one
    /// (see `is_entity_tag`).
    pub fn parse(s: &str) -> (r: Option<EntityTag>)
        requires
            has_no_blank(s@),
        ensures
            r is Some <==> is_entity_tag(s@),
            r matches Some(t) ==> t@ == s@,
    {
        match parse_etag(s) {
            Some(tag) => Some(EntityTag { tag, value: String::from_str(s) }),
            None => None,
        }
    }

    /// The typed header.
    pub fn typed(&self) -> (r: &headers::ETag)
        ensures
            *r == self.typed_spec(),
    {
        &self.tag
    }
}

/// Builds the weak validator for a modification time (nanoseconds since
/// the UNIX epoch) and a length: the typed tag and the header text, which
/// hold the same characters.
pub fn build_from_parts(mtime_nanos: u128, len: u64) -> (r: (EntityTag, String))
    ensures
        r.1@ == etag_spec(mtime_nanos as nat, len as nat),
        r.0@ == r.1@,
{
    let mut s = String::new();
    push_char(&mut s, 'W');
    push_char(&mut s, '/');
    push_char(&mut s, '"');
    push_hex(&mut s, mtime_nanos);
    push_char(&mut s, '-');
    push_hex(&mut s, len as u128);
    push_char(&mut s, '"');
    assert(s@ =~= etag_spec(mtime_nanos as nat, len as nat));
    proof {
        lemma_etag_is_entity_tag(mtime_nanos as nat, len as nat);
        lemma_etag_has_no_blank(mtime_nanos as nat, len as nat);
    }
    let tag = EntityTag::parse(s.as_str()).unwrap();
    (tag, s)
}

/// Builds the validator from file metadata: `None` when the modification
/// time is unavailable or is the UNIX epoch itself, as for `Last-Modified`.
pub fn build_from_meta(mtime_nanos: Option<u128>, len: u64) -> (r: Option<(EntityTag, String)>)
    ensures
        match mtime_nanos {
            None => r is None,
            Some(m) => if m == 0 {
                r is None
            } else {
                r matches Some((t, s)) && s@ == etag_spec(m as nat, len as nat) && t@ == s@
            },
        },
{
    match mtime_nanos {
        None => None,
        Some(m) => {
            if m == 0 {
                None
            } else {
                Some(build_from_parts(m, len))
            }
        },
    }
}

/// Every generated validator is a weak entity tag, so it is always valid
/// header text and always parses back.
pub proof fn lemma_etag_is_entity_tag(mtime_nanos: nat, len: nat)
    ensures
        is_entity_tag(etag_spec(mtime_nanos, len)),
{
    let a = hex(mtime_nanos);
    let b = hex(len);
    lemma_hex(mtime_nanos);
    lemma_hex(len);
    let s = etag_spec(mtime_nanos, len);
    assert(s.take(3) =~= weak_prefix());
    assert forall|i: int| 0 <= i < s.len() implies is_header_char(#[trigger] s[i]) by {
        if 3 <= i < 3 + a.len() {
            assert(s[i] == a[i - 3]);
            assert(is_hex_char(a[i - 3]));
        } else if 4 + a.len() <= i < 4 + a.len() + b.len() {
            assert(s[i] == b[i - 4 - a.len()]);
            assert(is_hex_char(b[i - 4 - a.len()]));
        }
    }
    assert forall|i: int| 3 <= i < s.len() - 1 implies #[trigger] s[i] != '"' by {
        if 3 <= i < 3 + a.len() {
            assert(s[i] == a[i - 3]);
            assert(is_hex_char(a[i - 3]));
        } else if 4 + a.len() <= i < 4 + a.len() + b.len() {
            assert(s[i] == b[i - 4 - a.len()]);
            assert(is_hex_char(b[i - 4 - a.len()]));
        }
    }
}

/// A validator holds no space or tab.
proof fn lemma_etag_has_no_blank(mtime_nanos: nat, len: nat)
    ensures
        has_no_blank(etag_spec(mtime_nanos, len)),
{
    let a = hex(mtime_nanos);
    let b = hex(len);
    lemma_hex(mtime_nanos);
    lemma_hex(len);
    let s = etag_spec(mtime_nanos, len);
    assert forall|i: int| 0 <= i < s.len() implies #[trigger] s[i] != ' ' && s[i] != '\t' by {
        if 3 <= i < 3 + a.len() {
            assert(s[i] == a[i - 3]);
            assert(is_hex_char(a[i - 3]));
        } else if 4 + a.len() <= i < 4 + a.len() + b.len() {
            assert(s[i] == b[i - 4 - a.len()]);
            assert(is_hex_char(b[i - 4 - a.len()]));
        }
    }
}

/// Validators of different files differ: a different modification time or
/// a different length always gives a different validator.
pub proof fn lemma_etag_injective(m1: nat, l1: nat, m2: nat, l2: nat)
    requires
        etag_spec(m1, l1) == etag_spec(m2, l2),
    ensures
        m1 == m2,
        l1 == l2,
{
    let a1 = hex(m1);
    let a2 = hex(m2);
    let b1 = hex(l1);
    let b2 = hex(l2);
    lemma_hex(m1);
    lemma_hex(m2);
    lemma_hex(l1);
    lemma_hex(l2);
    let s = etag_spec(m1, l1);
    let t = etag_spec(m2, l2);
    // The first '-' after the prefix ends the time field.
    if a1.len() < a2.len() {
        assert(s[3 + a1.len() as int] == '-');
        assert(t[3 + a1.len() as int] == a2[a1.len() as int]);
        assert(is_hex_char(a2[a1.len() as int]));
        assert(false);
    }
    if a2.len() < a1.len() {
        assert(t[3 + a2.len() as int] == '-');
        assert(s[3 + a2.len() as int] == a1[a2.len() as int]);
        assert(is_hex_char(a1[a2.len() as int]));
        assert(false);
    }
    assert(a1 =~= s.subrange(3, 3 + a1.len() as int));
    assert(a2 =~= t.subrange(3, 3 + a2.len() as int));
    lemma_hex_injective(m1, m2);
    assert(b1 =~= s.subrange(4 + a1.len() as int, s.len() - 1));
    assert(b2 =~= t.subrange(4 + a2.len() as int, t.len() - 1));
    lemma_hex_injective(l1, l2);
}

/// A validator never exceeds `ETAG_MAX_LEN` characters.
pub proof fn lemma_etag_fits(mtime_nanos: u128, len: u64)
    ensures
        etag_spec(mtime_nanos as nat, len as nat).len() <= ETAG_MAX_LEN,
{
    assert(pow16(16) == 0x1_0000_0000_0000_0000) by {
        reveal_with_fuel(pow16, 17);
    }
    assert(pow16(32) == 0x1_0000_0000_0000_0000_0000_0000_0000_0000) by {
        reveal_with_fuel(pow16, 33);
    }
    lemma_hex_len(mtime_nanos as nat, 32);
    lemma_hex_len(len as nat, 16);
}

} // verus!
