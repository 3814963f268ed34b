//! Helpers on file paths and file contents.
//!
//! The file system is queried by the caller; these functions decide what
//! the answers mean (whether a path is a usable directory, how a file's
//! bytes read as text).
use vstd::prelude::*;
use vstd::utf8::{decode_utf8, valid_utf8};

use crate::numfmt::{dec, push_dec};
use crate::text::{chars_of, string_of, trim, trim_bounds};

verus! {

/// What a path names on the file system.
#[derive(Debug, Clone, Copy, PartialEq, Eq, Structural)]
pub enum PathKind {
    /// Nothing, or nothing that can be accessed.
    Missing,
    /// A regular file (or anything that is not a directory).
    File,
    /// A directory.
    Dir,
}

/// What `String::from_utf8_lossy` makes of some bytes.
pub uninterp spec fn utf8_lossy(bytes: Seq<u8>) -> Seq<char>;

/// `String::from_utf8`: the text that valid UTF-8 bytes encode, and
/// nothing for invalid bytes.
#[verifier::external_body]
fn string_from_utf8(bytes: Vec<u8>) -> (r: Option<String>)
    ensures
        r is Some <==> valid_utf8(bytes@),
        r matches Some(s) ==> s@ == decode_utf8(bytes@),
{
    String::from_utf8(bytes).ok()
}

/// `String::from_utf8_lossy`: the text of the bytes, with each invalid
/// sequence replaced by U+FFFD; valid UTF-8 is decoded unchanged.
#[verifier::external_body]
fn string_from_utf8_lossy(bytes: &[u8]) -> (r: String)
    ensures
        r@ == utf8_lossy(bytes@),
        valid_utf8(bytes@) ==> r@ == decode_utf8(bytes@),
{
    String::from_utf8_lossy(bytes).into_owned()
}

/// The message for a path that cannot be accessed.
pub open spec fn not_found_message(path: Seq<char>) -> Seq<char> {
    "path "@ + path + " was not found or inaccessible"@
}

/// The message for a path that is not a directory.
pub open spec fn not_dir_message(path: Seq<char>) -> Seq<char> {
    "path "@ + path + " is not a valid directory"@
}

/// Validates a directory path: it must exist and be a directory.
pub fn get_valid_dirpath(path: &str, kind: PathKind) -> (r: Result<String, String>)
    ensures
        match kind {
            PathKind::Missing => r matches Err(e) && e@ == not_found_message(path@),
            PathKind::File => r matches Err(e) && e@ == not_dir_message(path@),
            PathKind::Dir => r matches Ok(p) && p@ == path@,
        },
{
    match kind {
        PathKind::Missing => {
            let mut e = String::from_str("path ");
            e.append(path);
            e.append(" was not found or inaccessible");
            assert(e@ =~= not_found_message(path@));
            Err(e)
        },
        PathKind::File => {
            let mut e = String::from_str("path ");
            e.append(path);
            e.append(" is not a valid directory");
            assert(e@ =~= not_dir_message(path@));
            Err(e)
        },
        PathKind::Dir => Ok(String::from_str(path)),
    }
}

/// The text of a file read as bytes (`None` when it could not be read),
/// trimmed; empty when unreadable, with invalid UTF-8 replaced.
pub fn read_text_default(contents: Option<Vec<u8>>) -> (r: String)
    ensures
        match contents {
            None => r@ == Seq::<char>::empty(),
            Some(b) => {
                &&& r@ == trim(utf8_lossy(b@))
                &&& valid_utf8(b@) ==> r@ == trim(decode_utf8(b@))
            },
        },
{
    match contents {
        None => String::new(),
        Some(b) => {
            let s = string_from_utf8_lossy(b.as_slice());
            let v = chars_of(s.as_str());
            let (a, e) = trim_bounds(v.as_slice(), 0, v.len());
            assert(v@.subrange(0, v@.len() as int) =~= v@);
            string_of(v.as_slice(), a, e)
        },
    }
}

/// The message for a file that cannot be read.
pub open spec fn read_error_message(path: Seq<char>) -> Seq<char> {
    "failed to read file `"@ + path + "`"@
}

/// The message for a file that is not UTF-8.
pub open spec fn not_utf8_message(path: Seq<char>) -> Seq<char> {
    "path at `"@ + path + "` was not valid utf-8"@
}

/// Reads a UTF-8 file at `path` from its bytes (`None` when it could not
/// be read).
pub fn read_file(path: &str, contents: Option<Vec<u8>>) -> (r: Result<String, String>)
    ensures
        match contents {
            None => r matches Err(e) && e@ == read_error_message(path@),
            Some(b) => if valid_utf8(b@) {
                r matches Ok(s) && s@ == decode_utf8(b@)
            } else {
                r matches Err(e) && e@ == not_utf8_message(path@)
            },
        },
{
    match contents {
        None => {
            let mut e = String::from_str("failed to read file `");
            e.append(path);
            e.append("`");
            assert(e@ =~= read_error_message(path@));
            Err(e)
        },
        Some(b) => match string_from_utf8(b) {
            Some(s) => Ok(s),
            None => {
                let mut e = String::from_str("path at `");
                e.append(path);
                e.append("` was not valid utf-8");
                assert(e@ =~= not_utf8_message(path@));
                Err(e)
            },
        },
    }
}

/// The Windows verbatim path prefix `\\?\`.
pub open spec fn verbatim_prefix() -> Seq<char> {
    seq!['\\', '\\', '?', '\\']
}

/// A path with the Windows verbatim prefix `\\?\` stripped, if it has it.
pub fn adjust_canonicalization(p: &str) -> (r: String)
    ensures
        r@ == if p@.len() >= 4 && p@.take(4) == verbatim_prefix() {
            p@.skip(4)
        } else {
            p@
        },
{
    let v = chars_of(p);
    if v.len() >= 4 && v[0] == '\\' && v[1] == '\\' && v[2] == '?' && v[3] == '\\' {
        assert(v@.take(4) =~= verbatim_prefix());
        assert(v@.subrange(4, v@.len() as int) =~= v@.skip(4));
        string_of(v.as_slice(), 4, v.len())
    } else {
        proof {
            if v@.len() >= 4 && v@.take(4) == verbatim_prefix() {
                assert(v@.take(4)[0] == v@[0]);
                assert(v@.take(4)[1] == v@[1]);
                assert(v@.take(4)[2] == v@[2]);
                assert(v@.take(4)[3] == v@[3]);
            }
        }
        assert(v@.subrange(0, v@.len() as int) =~= v@);
        string_of(v.as_slice(), 0, v.len())
    }
}

} // verus!

verus! {

/// Where an ignored value sits in the configuration document.
#[derive(Debug)]
pub enum IgnoredPath {
    /// The document itself.
    Root,
    /// An element of a sequence.
    Element {
        /// Where the sequence sits.
        parent: Box<IgnoredPath>,
        /// The element's index.
        index: usize,
    },
    /// An entry of a map.
    Entry {
        /// Where the map sits.
        parent: Box<IgnoredPath>,
        /// The entry's key.
        key: String,
    },
    /// The value inside an optional value.
    Optional {
        /// Where the optional value sits.
        parent: Box<IgnoredPath>,
    },
    /// The value inside a newtype variant.
    NewtypeVariant {
        /// Where the variant sits.
        parent: Box<IgnoredPath>,
    },
    /// The value inside a newtype struct.
    NewtypeStruct {
        /// Where the struct sits.
        parent: Box<IgnoredPath>,
    },
}

/// The text after `dst` once a path is written to it: the keys and indices
/// from the root down, joined by dots (no dot before the first one when
/// `dst` is empty).
pub open spec fn stringify_spec(dst: Seq<char>, path: IgnoredPath) -> Seq<char>
    decreases path,
{
    match path {
        IgnoredPath::Root => dst,
        IgnoredPath::Element { parent, index } => {
            let d = stringify_spec(dst, *parent);
            (if d.len() > 0 {
                d + "."@
            } else {
                d
            }) + dec(index as nat)
        },
        IgnoredPath::Entry { parent, key } => {
            let d = stringify_spec(dst, *parent);
            (if d.len() > 0 {
                d + "."@
            } else {
                d
            }) + key@
        },
        IgnoredPath::Optional { parent } => stringify_spec(dst, *parent),
        IgnoredPath::NewtypeVariant { parent } => stringify_spec(dst, *parent),
        IgnoredPath::NewtypeStruct { parent } => stringify_spec(dst, *parent),
    }
}

/// Writes the dotted name of an ignored value's path to `dst`.
pub fn stringify(dst: &mut String, path: &IgnoredPath)
    ensures
        final(dst)@ == stringify_spec(old(dst)@, *path),
    decreases path,
{
    match path {
        IgnoredPath::Root => {},
        IgnoredPath::Element { parent, index } => {
            stringify(dst, parent);
            if !dst.as_str().is_empty() {
                dst.append(".");
            }
            push_dec(dst, *index as u64);
        },
        IgnoredPath::Entry { parent, key } => {
            stringify(dst, parent);
            if !dst.as_str().is_empty() {
                dst.append(".");
            }
            dst.append(key.as_str());
        },
        IgnoredPath::Optional { parent } => stringify(dst, parent),
        IgnoredPath::NewtypeVariant { parent } => stringify(dst, parent),
        IgnoredPath::NewtypeStruct { parent } => stringify(dst, parent),
    }
}

} // verus!
