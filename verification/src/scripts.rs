//! Script entries chosen by glob patterns of request paths.
use vstd::prelude::*;

verus! {

/// Whether a glob pattern (as `globset::Glob::new` compiles it, with the
/// default options) matches a path, or nothing when it does not compile.
pub uninterp spec fn glob_match(pattern: Seq<char>, path: Seq<char>) -> Option<bool>;

/// `globset::Glob::new(pattern)`, then `GlobMatcher::is_match(path)` on
/// its compiled matcher.
#[verifier::external_body]
pub(crate) fn glob_is_match(pattern: &str, path: &str) -> (r: Option<bool>)
    ensures
        r == glob_match(pattern@, path@),
{
    globset::Glob::new(pattern).ok().map(|g| g.compile_matcher().is_match(path))
}

/// A script entry.
#[derive(Debug, Clone)]
pub struct Scripts {
    /// The glob pattern of the request paths it applies to.
    pub source: String,
}

/// The sources of a list of script entries.
pub open spec fn sources(v: Seq<Scripts>) -> Seq<Seq<char>> {
    v.map_values(|s: Scripts| s.source@)
}

/// The index of the first entry whose pattern matches the path.
pub open spec fn first_glob_match(sources: Seq<Seq<char>>, path: Seq<char>) -> Option<int>
    decreases sources.len(),
{
    if sources.len() == 0 {
        None
    } else if glob_match(sources[0], path) == Some(true) {
        Some(0)
    } else {
        match first_glob_match(sources.drop_first(), path) {
            Some(i) => Some(i + 1),
            None => None,
        }
    }
}

/// The first script entry whose glob pattern matches the request path,
/// if any.
#[verifier::loop_isolation(false)]
pub fn script_uri_path<'a>(uri_path: &str, scripts_opts_vec: &'a Option<Vec<Scripts>>) -> (r:
    Option<&'a Scripts>)
    ensures
        match scripts_opts_vec {
            None => r is None,
            Some(v) => match first_glob_match(sources(v@), uri_path@) {
                Some(i) => r == Some(&v@[i]),
                None => r is None,
            },
        },
{
    match scripts_opts_vec {
        None => None,
        Some(v) => {
            let ghost srcs = sources(v@);
            assert(srcs.skip(0) =~= srcs);
            let mut i: usize = 0;
            while i < v.len()
                invariant
                    i <= v@.len(),
                    srcs == sources(v@),
                    first_glob_match(srcs, uri_path@) == match first_glob_match(
                        srcs.skip(i as int),
                        uri_path@,
                    ) {
                        Some(j) => Some(j + i),
                        None => None,
                    },
                decreases v@.len() - i,
            {
                assert(srcs.skip(i as int)[0] == srcs[i as int]);
                assert(srcs.skip(i as int).drop_first() =~= srcs.skip(i + 1));
                if glob_is_match(v[i].source.as_str(), uri_path) == Some(true) {
                    return Some(&v[i]);
                }
                i = i + 1;
            }
            assert(srcs.skip(i as int) =~= Seq::<Seq<char>>::empty());
            None
        },
    }
}

} // verus!
