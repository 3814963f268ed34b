//! Content codings, as used by `Content-Encoding` and `Accept-Encoding`
//! (see the IANA HTTP parameters registry).
use vstd::prelude::*;

use crate::text::str_eq;

verus! {

/// Values that are used with headers like `Content-Encoding` or
/// `Accept-Encoding`.
#[allow(non_camel_case_types)]
#[derive(Copy, Clone, Debug, PartialEq, Eq, Structural)]
pub enum ContentCoding {
    /// `*`
    ANY,
    /// `br`
    BROTLI,
    /// `compress`
    COMPRESS,
    /// `deflate`
    DEFLATE,
    /// `gzip`
    GZIP,
    /// `identity`
    IDENTITY,
    /// `zstd`
    ZSTD,
}

/// The registered token of a coding.
pub open spec fn coding_token(c: ContentCoding) -> Seq<char> {
    match c {
        ContentCoding::ANY => "*"@,
        ContentCoding::BROTLI => "br"@,
        ContentCoding::COMPRESS => "compress"@,
        ContentCoding::DEFLATE => "deflate"@,
        ContentCoding::GZIP => "gzip"@,
        ContentCoding::IDENTITY => "identity"@,
        ContentCoding::ZSTD => "zstd"@,
    }
}

/// The name of a coding's variant.
pub open spec fn coding_variant(c: ContentCoding) -> Seq<char> {
    match c {
        ContentCoding::ANY => "ANY"@,
        ContentCoding::BROTLI => "BROTLI"@,
        ContentCoding::COMPRESS => "COMPRESS"@,
        ContentCoding::DEFLATE => "DEFLATE"@,
        ContentCoding::GZIP => "GZIP"@,
        ContentCoding::IDENTITY => "IDENTITY"@,
        ContentCoding::ZSTD => "ZSTD"@,
    }
}

/// The coding that a string names, by its token or by its variant name,
/// tried in declaration order.
pub open spec fn coding_of(s: Seq<char>) -> Option<ContentCoding> {
    if s == "ANY"@ || s == "*"@ {
        Some(ContentCoding::ANY)
    } else if s == "BROTLI"@ || s == "br"@ {
        Some(ContentCoding::BROTLI)
    } else if s == "COMPRESS"@ || s == "compress"@ {
        Some(ContentCoding::COMPRESS)
    } else if s == "DEFLATE"@ || s == "deflate"@ {
        Some(ContentCoding::DEFLATE)
    } else if s == "GZIP"@ || s == "gzip"@ {
        Some(ContentCoding::GZIP)
    } else if s == "IDENTITY"@ || s == "identity"@ {
        Some(ContentCoding::IDENTITY)
    } else if s == "ZSTD"@ || s == "zstd"@ {
        Some(ContentCoding::ZSTD)
    } else {
        None
    }
}

impl ContentCoding {
    /// Returns the registered token of the coding.
    pub fn to_static(&self) -> (r: &'static str)
        ensures
            r@ == coding_token(*self),
    {
        match *self {
            ContentCoding::ANY => "*",
            ContentCoding::BROTLI => "br",
            ContentCoding::COMPRESS => "compress",
            ContentCoding::DEFLATE => "deflate",
            ContentCoding::GZIP => "gzip",
            ContentCoding::IDENTITY => "identity",
            ContentCoding::ZSTD => "zstd",
        }
    }

    /// The registered token of the coding as a `String`, as it is displayed.
    pub fn to_string(&self) -> (r: String)
        ensures
            r@ == coding_token(*self),
    {
        String::from_str(self.to_static())
    }

    /// Reads a coding from its token or its variant name; `Err(())` for
    /// anything else.
    pub fn from_str(s: &str) -> (r: Result<ContentCoding, ()>)
        ensures
            match coding_of(s@) {
                Some(c) => r == Ok::<ContentCoding, ()>(c),
                None => r is Err,
            },
    {
        if str_eq(s, "ANY") || str_eq(s, "*") {
            Ok(ContentCoding::ANY)
        } else if str_eq(s, "BROTLI") || str_eq(s, "br") {
            Ok(ContentCoding::BROTLI)
        } else if str_eq(s, "COMPRESS") || str_eq(s, "compress") {
            Ok(ContentCoding::COMPRESS)
        } else if str_eq(s, "DEFLATE") || str_eq(s, "deflate") {
            Ok(ContentCoding::DEFLATE)
        } else if str_eq(s, "GZIP") || str_eq(s, "gzip") {
            Ok(ContentCoding::GZIP)
        } else if str_eq(s, "IDENTITY") || str_eq(s, "identity") {
            Ok(ContentCoding::IDENTITY)
        } else if str_eq(s, "ZSTD") || str_eq(s, "zstd") {
            Ok(ContentCoding::ZSTD)
        } else {
            Err(())
        }
    }

    /// Reads a coding, defaulting to `IDENTITY` (which is generally always
    /// acceptable) for anything that is not one.
    pub fn from(s: &str) -> (r: ContentCoding)
        ensures
            r == match coding_of(s@) {
                Some(c) => c,
                None => ContentCoding::IDENTITY,
            },
    {
        match ContentCoding::from_str(s) {
            Ok(c) => c,
            Err(_) => ContentCoding::IDENTITY,
        }
    }
}

/// The characters of the tokens and variant names.
proof fn lemma_literals()
    ensures
        "ANY"@ == seq!['A', 'N', 'Y'],
        "*"@ == seq!['*'],
        "BROTLI"@ == seq!['B', 'R', 'O', 'T', 'L', 'I'],
        "br"@ == seq!['b', 'r'],
        "COMPRESS"@ == seq!['C', 'O', 'M', 'P', 'R', 'E', 'S', 'S'],
        "compress"@ == seq!['c', 'o', 'm', 'p', 'r', 'e', 's', 's'],
        "DEFLATE"@ == seq!['D', 'E', 'F', 'L', 'A', 'T', 'E'],
        "deflate"@ == seq!['d', 'e', 'f', 'l', 'a', 't', 'e'],
        "GZIP"@ == seq!['G', 'Z', 'I', 'P'],
        "gzip"@ == seq!['g', 'z', 'i', 'p'],
        "IDENTITY"@ == seq!['I', 'D', 'E', 'N', 'T', 'I', 'T', 'Y'],
        "identity"@ == seq!['i', 'd', 'e', 'n', 't', 'i', 't', 'y'],
        "ZSTD"@ == seq!['Z', 'S', 'T', 'D'],
        "zstd"@ == seq!['z', 's', 't', 'd'],
{
    reveal_strlit("ANY");
    reveal_strlit("*");
    reveal_strlit("BROTLI");
    reveal_strlit("br");
    reveal_strlit("COMPRESS");
    reveal_strlit("compress");
    reveal_strlit("DEFLATE");
    reveal_strlit("deflate");
    reveal_strlit("GZIP");
    reveal_strlit("gzip");
    reveal_strlit("IDENTITY");
    reveal_strlit("identity");
    reveal_strlit("ZSTD");
    reveal_strlit("zstd");
    assert("ANY"@ =~= seq!['A', 'N', 'Y']);
    assert("*"@ =~= seq!['*']);
    assert("BROTLI"@ =~= seq!['B', 'R', 'O', 'T', 'L', 'I']);
    assert("br"@ =~= seq!['b', 'r']);
    assert("COMPRESS"@ =~= seq!['C', 'O', 'M', 'P', 'R', 'E', 'S', 'S']);
    assert("compress"@ =~= seq!['c', 'o', 'm', 'p', 'r', 'e', 's', 's']);
    assert("DEFLATE"@ =~= seq!['D', 'E', 'F', 'L', 'A', 'T', 'E']);
    assert("deflate"@ =~= seq!['d', 'e', 'f', 'l', 'a', 't', 'e']);
    assert("GZIP"@ =~= seq!['G', 'Z', 'I', 'P']);
    assert("gzip"@ =~= seq!['g', 'z', 'i', 'p']);
    assert("IDENTITY"@ =~= seq!['I', 'D', 'E', 'N', 'T', 'I', 'T', 'Y']);
    assert("identity"@ =~= seq!['i', 'd', 'e', 'n', 't', 'i', 't', 'y']);
    assert("ZSTD"@ =~= seq!['Z', 'S', 'T', 'D']);
    assert("zstd"@ =~= seq!['z', 's', 't', 'd']);
}

/// A coding's token, and its variant name, read back as that coding.
pub proof fn lemma_token_round_trip(c: ContentCoding)
    ensures
        coding_of(coding_token(c)) == Some(c),
        coding_of(coding_variant(c)) == Some(c),
{
    lemma_literals();
    let t = coding_token(c);
    let v = coding_variant(c);
    // Different first characters or lengths tell the names apart.
    assert(t.len() != 3 || t[0] != 'A');
    match c {
        ContentCoding::ANY => {},
        ContentCoding::BROTLI => {
            assert(t[0] != '*');
            assert(v[0] != 'A');
        },
        ContentCoding::COMPRESS => {
            assert(t[0] != '*' && t[0] != 'b');
            assert(v[0] != 'A' && v[0] != 'B');
        },
        ContentCoding::DEFLATE => {
            assert(t[0] != '*' && t[0] != 'b' && t[0] != 'c');
            assert(v[0] != 'A' && v[0] != 'B' && v[0] != 'C');
        },
        ContentCoding::GZIP => {
            assert(t[0] != '*' && t[0] != 'b' && t[0] != 'c' && t[0] != 'd');
            assert(v[0] != 'A' && v[0] != 'B' && v[0] != 'C' && v[0] != 'D');
        },
        ContentCoding::IDENTITY => {
            assert(t[0] != '*' && t[0] != 'b' && t[0] != 'c' && t[0] != 'd' && t[0] != 'g');
            assert(v[0] != 'A' && v[0] != 'B' && v[0] != 'C' && v[0] != 'D' && v[0] != 'G');
        },
        ContentCoding::ZSTD => {
            assert(t[0] != '*' && t[0] != 'b' && t[0] != 'c' && t[0] != 'd' && t[0] != 'g' && t[0]
                != 'i');
            assert(v[0] != 'A' && v[0] != 'B' && v[0] != 'C' && v[0] != 'D' && v[0] != 'G' && v[0]
                != 'I');
        },
    }
}

} // verus!
