//! Media types: which ones are text, which ones are worth compressing, and
//! the content type of a file by its extension.
use vstd::prelude::*;

use crate::http_ext::{header_value_ok, is_header_value};
use crate::path_ext::{extension, path_extension};
use crate::text::str_eq;

verus! {

/// A parsed media type.
#[derive(Debug, Clone)]
pub struct MimeType {
    /// The top-level type, lower case (`text` in `text/html`).
    pub type_: String,
    /// The subtype, lower case (`html` in `text/html`).
    pub subtype: String,
    /// The structured syntax suffix (`json` in `application/problem+json`).
    pub suffix: Option<String>,
    /// The media type without its parameters.
    pub essence: String,
}

/// The type, subtype, suffix and essence that the `mime` crate finds in a
/// text, or nothing when it is not a media type.
pub uninterp spec fn mime_parts(s: Seq<char>) -> Option<
    (Seq<char>, Seq<char>, Option<Seq<char>>, Seq<char>),
>;

/// The parts of a media type as characters.
pub open spec fn mime_view(m: MimeType) -> (Seq<char>, Seq<char>, Option<Seq<char>>, Seq<char>) {
    (
        m.type_@,
        m.subtype@,
        match m.suffix {
            Some(x) => Some(x@),
            None => None,
        },
        m.essence@,
    )
}

/// `mime::Mime::from_str`, then its type, subtype, suffix and essence.
#[verifier::external_body]
fn parse_mime(s: &str) -> (r: Option<MimeType>)
    ensures
        match r {
            Some(m) => mime_parts(s@) == Some(mime_view(m)),
            None => mime_parts(s@) is None,
        },
{
    let m: mime_guess::mime::Mime = s.parse().ok()?;
    Some(
        MimeType {
            type_: m.type_().as_str().to_string(),
            subtype: m.subtype().as_str().to_string(),
            suffix: m.suffix().map(|x| x.as_str().to_string()),
            essence: m.essence_str().to_string(),
        },
    )
}

impl MimeType {
    /// Parses a media type.
    pub fn parse(s: &str) -> (r: Option<MimeType>)
        ensures
            match r {
                Some(m) => mime_parts(s@) == Some(mime_view(m)),
                None => mime_parts(s@) is None,
            },
    {
        parse_mime(s)
    }
}

/// Media types of other top-level types that hold text.
pub open spec fn text_mime_types() -> Seq<Seq<char>> {
    seq![
        "application/csv"@,
        "application/graphql"@,
        "application/javascript"@,
        "application/json"@,
        "application/rtf"@,
        "application/sql"@,
        "application/x-yaml"@,
        "application/xml"@,
        "application/yaml"@,
    ]
}

/// Media types besides text that are worth compressing.
pub open spec fn additional_compressible_types() -> Seq<Seq<char>> {
    seq![
        "application/wasm"@,
        "application/font-sfnt"@,
        "application/vnd.ms-fontobject"@,
        "image/x-icon"@,
        "image/vnd.microsoft.icon"@,
    ]
}

/// Whether a text is one of a list of literals.
fn one_of(s: &str, list: &[&str]) -> (r: bool)
    ensures
        r == list@.map_values(|x: &str| x@).contains(s@),
{
    let ghost l = list@.map_values(|x: &str| x@);
    let mut i: usize = 0;
    while i < list.len()
        invariant
            i <= list@.len(),
            l == list@.map_values(|x: &str| x@),
            forall|j: int| 0 <= j < i ==> l[j] != s@,
        decreases list@.len() - i,
    {
        if str_eq(list[i], s) {
            assert(l[i as int] == s@);
            return true;
        }
        i = i + 1;
    }
    false
}

/// Whether the media type is of the top-level type `text`.
pub open spec fn is_text_only_spec(m: MimeType) -> bool {
    m.type_@ == "text"@
}

/// Whether the media type holds text: of type `text`, with one of the
/// suffixes `json`, `xml`, `yaml` or `svg`, or a known text type.
pub open spec fn is_text_spec(m: MimeType) -> bool {
    ||| is_text_only_spec(m)
    ||| (m.suffix matches Some(x) && (x@ == "json"@ || x@ == "xml"@ || x@ == "yaml"@ || x@
        == "svg"@))
    ||| text_mime_types().contains(m.essence@)
}

/// Whether the media type is worth compressing: text, a font other than
/// WOFF2 (which is compressed already), or a known compressible type.
pub open spec fn is_compressible_spec(m: MimeType) -> bool {
    ||| is_text_spec(m)
    ||| (m.type_@ == "font"@ && m.essence@ != "font/woff2"@)
    ||| additional_compressible_types().contains(m.essence@)
}

/// Media type predicates.
pub trait MimeExt {
    /// If the type is text.
    fn is_text(&self) -> bool;
    /// If the type is of the top-level type `text`.
    fn is_text_only(&self) -> bool;
    /// If the type is worth compressing.
    fn is_compressible(&self) -> bool;
    /// If the type is of type `text` and listed.
    fn contains_text_only(&self, allowed: &[&str]) -> bool;
}

impl MimeExt for MimeType {
    fn is_text_only(&self) -> (r: bool)
        ensures
            r == is_text_only_spec(*self),
    {
        str_eq(self.type_.as_str(), "text")
    }

    fn is_text(&self) -> (r: bool)
        ensures
            r == is_text_spec(*self),
    {
        if self.is_text_only() {
            return true;
        }
        if let Some(suffix) = &self.suffix {
            let s = suffix.as_str();
            if str_eq(s, "json") || str_eq(s, "xml") || str_eq(s, "yaml") || str_eq(s, "svg") {
                return true;
            }
        }
        let list = [
            "application/csv",
            "application/graphql",
            "application/javascript",
            "application/json",
            "application/rtf",
            "application/sql",
            "application/x-yaml",
            "application/xml",
            "application/yaml",
        ];
        assert(list@.map_values(|x: &str| x@) =~= text_mime_types());
        one_of(self.essence.as_str(), &list)
    }

    fn contains_text_only(&self, list: &[&str]) -> (r: bool)
        ensures
            r == (is_text_only_spec(*self) && list@.map_values(|x: &str| x@).contains(self.essence@)),
    {
        if !self.is_text_only() {
            return false;
        }
        one_of(self.essence.as_str(), list)
    }

    fn is_compressible(&self) -> (r: bool)
        ensures
            r == is_compressible_spec(*self),
    {
        if self.is_text() {
            return true;
        }
        if str_eq(self.type_.as_str(), "font") {
            let woff2 = str_eq(self.essence.as_str(), "font/woff2");
            proof {
                if woff2 {
                    reveal_strlit("font/woff2");
                    reveal_strlit("application/wasm");
                    reveal_strlit("application/font-sfnt");
                    reveal_strlit("application/vnd.ms-fontobject");
                    reveal_strlit("image/x-icon");
                    reveal_strlit("image/vnd.microsoft.icon");
                    let l = additional_compressible_types();
                    assert forall|j: int| 0 <= j < l.len() implies l[j] != self.essence@ by {
                        assert(l[j][0] != 'f');
                    }
                }
            }
            return !woff2;
        }
        let list = [
            "application/wasm",
            "application/font-sfnt",
            "application/vnd.ms-fontobject",
            "image/x-icon",
            "image/vnd.microsoft.icon",
        ];
        assert(list@.map_values(|x: &str| x@) =~= additional_compressible_types());
        one_of(self.essence.as_str(), &list)
    }
}

/// The media type (its essence) that `mime_guess` gives a file extension
/// first, or `application/octet-stream` when it knows none.
pub uninterp spec fn guessed_mime(ext: Seq<char>) -> Seq<char>;

/// `mime_guess::from_ext(ext).first_or_octet_stream()`, its essence.
#[verifier::external_body]
fn guess_mime(ext: &str) -> (r: String)
    ensures
        r@ == guessed_mime(ext@),
{
    mime_guess::from_ext(ext).first_or_octet_stream().essence_str().to_string()
}

/// The content type of a file: the type guessed from its extension (none
/// counting as empty), or `application/octet-stream` when that is no
/// valid header value.
pub open spec fn content_type_spec(path: Seq<char>) -> Seq<char> {
    let ext = match path_extension(path) {
        Some(e) => e,
        None => Seq::empty(),
    };
    if is_header_value(guessed_mime(ext)) {
        guessed_mime(ext)
    } else {
        "application/octet-stream"@
    }
}

/// The `Content-Type` of a file served from a path.
pub fn content_type_for(path: &str) -> (r: String)
    ensures
        r@ == content_type_spec(path@),
{
    let ext = match extension(path) {
        Some(e) => e,
        None => String::new(),
    };
    let m = guess_mime(ext.as_str());
    if header_value_ok(m.as_str()) {
        m
    } else {
        String::from_str("application/octet-stream")
    }
}

} // verus!
