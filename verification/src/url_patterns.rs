//! Glob patterns of URL paths, turned into regular expressions whose
//! groups capture what the wildcards matched, and the `$N` placeholders
//! that refer to those captures.
use vstd::prelude::*;

use crate::numfmt::{dec, push_dec};
use crate::text::{replace_all, replace_str, trim_start_matches, trim_start_str};

verus! {

/// The regular expression `globset` writes for a glob (with the default
/// options), or nothing when the glob does not compile.
pub uninterp spec fn glob_regex(glob: Seq<char>) -> Option<Seq<char>>;

/// `globset::Glob::new`, then `Glob::regex`.
#[verifier::external_body]
fn glob_regex_text(glob: &str) -> (r: Option<String>)
    ensures
        match r {
            Some(re) => glob_regex(glob@) == Some(re@),
            None => glob_regex(glob@) is None,
        },
{
    globset::Glob::new(glob).ok().map(|g| g.regex().to_string())
}

/// The regular expression of a glob source pattern, as redirects and
/// rewrites match it: `globset`'s expression with its leading `(?-u)`
/// flags dropped, its groups made capturing (`?:` removed, `?:.*` becoming
/// `.*`) and doubled `.*` merged.
pub open spec fn source_regex(glob: Seq<char>) -> Option<Seq<char>> {
    match glob_regex(glob) {
        None => None,
        Some(re) => Some(
            replace_all(
                replace_all(
                    replace_all(trim_start_matches(re, "(?-u)"@), "?:.*"@, ".*"@),
                    "?:"@,
                    ""@,
                ),
                ".*.*"@,
                ".*"@,
            ),
        ),
    }
}

/// Turns a glob source pattern into its regular expression, or nothing
/// when the glob does not compile.
pub fn source_regex_of(glob: &str) -> (r: Option<String>)
    ensures
        match r {
            Some(re) => source_regex(glob@) == Some(re@),
            None => source_regex(glob@) is None,
        },
{
    proof {
        reveal_strlit("(?-u)");
        reveal_strlit("?:.*");
        reveal_strlit(".*");
        reveal_strlit("?:");
        reveal_strlit(".*.*");
    }
    let re = match glob_regex_text(glob) {
        None => {
            return None;
        },
        Some(re) => re,
    };
    let a = trim_start_str(re.as_str(), "(?-u)");
    let b = replace_str(a.as_str(), "?:.*", ".*");
    let c = replace_str(b.as_str(), "?:", "");
    let d = replace_str(c.as_str(), ".*.*", ".*");
    Some(d)
}

/// The placeholders `$0` to `$(n-1)`.
pub open spec fn placeholder_names(n: nat) -> Seq<Seq<char>> {
    Seq::new(n, |i: int| "$"@ + dec(i as nat))
}

/// The text of each capture, empty for groups that did not participate.
pub open spec fn capture_texts(caps: Seq<Option<Seq<char>>>) -> Seq<Seq<char>> {
    caps.map_values(
        |c: Option<Seq<char>>|
            match c {
                Some(t) => t,
                None => Seq::empty(),
            },
    )
}

/// The characters of each optional string.
pub open spec fn opt_views(v: Seq<Option<String>>) -> Seq<Option<Seq<char>>> {
    v.map_values(
        |c: Option<String>|
            match c {
                Some(t) => Some(t@),
                None => None,
            },
    )
}

/// The characters of each string.
pub open spec fn string_views(v: Seq<String>) -> Seq<Seq<char>> {
    v.map_values(|s: String| s@)
}

/// What an `aho_corasick::AhoCorasick` built from the patterns (with the
/// default options) makes of a haystack when it replaces every match of
/// pattern `i` by replacement `i`; nothing when it cannot be built.
pub uninterp spec fn ac_replace_all(
    patterns: Seq<Seq<char>>,
    haystack: Seq<char>,
    replacements: Seq<Seq<char>>,
) -> Option<Seq<char>>;

/// `AhoCorasick::new(patterns)`, then `AhoCorasick::try_replace_all`,
/// which needs one replacement per pattern.
#[verifier::external_body]
fn aho_corasick_replace_all(patterns: &Vec<String>, haystack: &str, replacements: &Vec<String>) -> (r:
    Option<String>)
    requires
        patterns@.len() == replacements@.len(),
    ensures
        match r {
            Some(s) => ac_replace_all(string_views(patterns@), haystack@, string_views(replacements@))
                == Some(s@),
            None => ac_replace_all(
                string_views(patterns@),
                haystack@,
                string_views(replacements@),
            ) is None,
        },
{
    let ac = aho_corasick::AhoCorasick::new(patterns).ok()?;
    ac.try_replace_all(haystack, replacements).ok()
}

/// The destination with each placeholder `$i` replaced by the text of
/// capture `i`, or nothing when the replacement cannot be made.
pub open spec fn fill_placeholders_spec(caps: Seq<Option<Seq<char>>>, dest: Seq<char>) -> Option<
    Seq<char>,
> {
    ac_replace_all(placeholder_names(caps.len()), dest, capture_texts(caps))
}

/// Replaces the `$i` placeholders of a destination by the captures of a
/// regular expression (`None` for a group that did not participate).
pub fn fill_placeholders(caps: &Vec<Option<String>>, dest: &str) -> (r: Option<String>)
    ensures
        match r {
            Some(s) => fill_placeholders_spec(opt_views(caps@), dest@) == Some(s@),
            None => fill_placeholders_spec(opt_views(caps@), dest@) is None,
        },
{
    let mut patterns: Vec<String> = Vec::new();
    let mut texts: Vec<String> = Vec::new();
    let ghost cv = opt_views(caps@);
    let mut i: usize = 0;
    while i < caps.len()
        invariant
            i <= caps@.len(),
            cv == opt_views(caps@),
            patterns@.len() == i,
            texts@.len() == i,
            string_views(patterns@) == placeholder_names(caps@.len() as nat).take(i as int),
            string_views(texts@) == capture_texts(cv).take(i as int),
        decreases caps@.len() - i,
    {
        let mut p = String::from_str("$");
        push_dec(&mut p, i as u64);
        let t = match &caps[i] {
            Some(c) => c.clone(),
            None => String::new(),
        };
        proof {
            reveal_strlit("$");
        }
        patterns.push(p);
        texts.push(t);
        assert(string_views(patterns@) =~= placeholder_names(caps@.len() as nat).take(i + 1));
        assert(string_views(texts@) =~= capture_texts(cv).take(i + 1));
        i = i + 1;
    }
    assert(placeholder_names(caps@.len() as nat).take(i as int) =~= placeholder_names(
        caps@.len() as nat,
    ));
    assert(capture_texts(cv).take(i as int) =~= capture_texts(cv));
    aho_corasick_replace_all(&patterns, dest, &texts)
}

} // verus!
