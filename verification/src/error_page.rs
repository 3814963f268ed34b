//! Error pages: the cache of pre-loaded page files and the HTML responses
//! for 4xx and 50x status codes.
use vstd::prelude::*;
use vstd::utf8::encode_utf8;

use crate::helpers::{read_text_default, utf8_lossy};
use crate::http_ext::{is_head_method, Method, MethodExt};
use crate::numfmt::{dec, push_dec};
use crate::text::{str_eq, trim};

verus! {

/// The reason phrase that the `http` crate gives a status code, if any.
pub uninterp spec fn reason_phrase(code: u16) -> Option<Seq<char>>;

/// `http::StatusCode::canonical_reason` for a valid status code.
#[verifier::external_body]
pub(crate) fn canonical_reason(code: u16) -> (r: Option<&'static str>)
    requires
        100 <= code <= 999,
    ensures
        match r {
            Some(s) => reason_phrase(code) == Some(s@),
            None => reason_phrase(code) is None,
        },
{
    http::StatusCode::from_u16(code).ok().and_then(|c| c.canonical_reason())
}

/// Pre-loaded page bodies, keyed by the configured file path.
pub struct PageCache {
    entries: Vec<(String, String)>,
}

/// The body stored for a key: the first entry with that key.
pub open spec fn lookup(entries: Seq<(Seq<char>, Seq<char>)>, key: Seq<char>) -> Option<Seq<char>>
    decreases entries.len(),
{
    if entries.len() == 0 {
        None
    } else if entries[0].0 == key {
        Some(entries[0].1)
    } else {
        lookup(entries.drop_first(), key)
    }
}

impl PageCache {
    /// The entries as characters.
    pub closed spec fn entries(&self) -> Seq<(Seq<char>, Seq<char>)> {
        self.entries@.map_values(|e: (String, String)| (e.0@, e.1@))
    }

    /// The cached pages: from path to body.
    pub closed spec fn pages(&self) -> Map<Seq<char>, Seq<char>> {
        Map::new(
            |k: Seq<char>| lookup(self.entries(), k) is Some,
            |k: Seq<char>| lookup(self.entries(), k).unwrap(),
        )
    }

    /// An empty cache.
    pub fn new() -> (r: Self)
        ensures
            r.pages() == Map::<Seq<char>, Seq<char>>::empty(),
    {
        let r = PageCache { entries: Vec::new() };
        assert(r.pages() =~= Map::<Seq<char>, Seq<char>>::empty());
        r
    }

    /// Pre-loads a page. `file` is what the path names: `None` when it is
    /// not a regular file (the page is skipped and the default HTML body
    /// will be served), else the file's bytes when they could be read. An
    /// empty path is skipped. A stored body is the trimmed text of the
    /// file.
    #[verifier::loop_isolation(false)]
    pub fn cache_page(&mut self, path: &str, file: Option<Option<Vec<u8>>>)
        ensures
            if path@.len() == 0 || file is None {
                final(self).pages() == old(self).pages()
            } else {
                final(self).pages() == old(self).pages().insert(
                    path@,
                    match file {
                        Some(Some(b)) => trim(utf8_lossy(b@)),
                        _ => Seq::<char>::empty(),
                    },
                )
            },
    {
        if path.is_empty() {
            return;
        }
        let contents = match file {
            None => {
                return;
            },
            Some(c) => c,
        };
        let body = read_text_default(contents);
        let ghost old_entries = self.entries();
        assert(old_entries.skip(0) =~= old_entries);
        let mut i: usize = 0;
        while i < self.entries.len()
            invariant
                i <= self.entries@.len(),
                self.entries() == old_entries,
                old(self).entries() == old_entries,
                lookup(old_entries, path@) == lookup(old_entries.skip(i as int), path@),
                forall|j: int| 0 <= j < i ==> #[trigger] old_entries[j].0 != path@,
            decreases self.entries@.len() - i,
        {
            assert(old_entries.skip(i as int).drop_first() =~= old_entries.skip(i + 1));
            assert(old_entries.skip(i as int)[0] == old_entries[i as int]);
            if str_eq(self.entries[i].0.as_str(), path) {
                let key = self.entries[i].0.clone();
                let ghost b = body@;
                self.entries.set(i, (key, body));
                proof {
                    lemma_lookup_update(old_entries, i as int, path@, b);
                    assert(self.entries() =~= old_entries.update(i as int, (path@, b)));
                    assert(self.pages() =~= old(self).pages().insert(path@, b));
                }
                return;
            }
            i = i + 1;
        }
        let ghost b = body@;
        self.entries.push((String::from_str(path), body));
        proof {
            assert(old_entries.skip(i as int) =~= Seq::<(Seq<char>, Seq<char>)>::empty());
            lemma_lookup_push(old_entries, path@, b);
            assert(self.entries() =~= old_entries.push((path@, b)));
            assert(self.pages() =~= old(self).pages().insert(path@, b));
        }
    }

    /// The cached body for a path, if any.
    pub fn cached_page(&self, path: &str) -> (r: Option<String>)
        ensures
            match r {
                Some(s) => self.pages().contains_key(path@) && self.pages()[path@] == s@,
                None => !self.pages().contains_key(path@),
            },
    {
        assert(self.entries().skip(0) =~= self.entries());
        let mut i: usize = 0;
        while i < self.entries.len()
            invariant
                i <= self.entries@.len(),
                lookup(self.entries(), path@) == lookup(self.entries().skip(i as int), path@),
            decreases self.entries@.len() - i,
        {
            assert(self.entries().skip(i as int).drop_first() =~= self.entries().skip(i + 1));
            assert(self.entries().skip(i as int)[0] == self.entries()[i as int]);
            if str_eq(self.entries[i].0.as_str(), path) {
                return Some(self.entries[i].1.clone());
            }
            i = i + 1;
        }
        assert(self.entries().skip(i as int) =~= Seq::<(Seq<char>, Seq<char>)>::empty());
        None
    }
}

/// Replacing the body of the first entry with a key changes only that
/// key's lookup.
proof fn lemma_lookup_update(
    e: Seq<(Seq<char>, Seq<char>)>,
    i: int,
    key: Seq<char>,
    body: Seq<char>,
)
    requires
        0 <= i < e.len(),
        e[i].0 == key,
        forall|j: int| 0 <= j < i ==> #[trigger] e[j].0 != key,
    ensures
        lookup(e.update(i, (key, body)), key) == Some(body),
        forall|k: Seq<char>| k != key ==> lookup(e.update(i, (key, body)), k) == lookup(e, k),
    decreases e.len(),
{
    let u = e.update(i, (key, body));
    if i == 0 {
        assert(u.drop_first() =~= e.drop_first());
        assert forall|k: Seq<char>| k != key implies lookup(u, k) == lookup(e, k) by {
            assert(u[0].0 == key);
        }
    } else {
        assert(u.drop_first() =~= e.drop_first().update(i - 1, (key, body)));
        assert forall|j: int| 0 <= j < i - 1 implies #[trigger] e.drop_first()[j].0 != key by {
            assert(e.drop_first()[j] == e[j + 1]);
        }
        lemma_lookup_update(e.drop_first(), i - 1, key, body);
        assert(u[0] == e[0]);
        assert forall|k: Seq<char>| k != key implies lookup(u, k) == lookup(e, k) by {
            assert(lookup(e.drop_first().update(i - 1, (key, body)), k) == lookup(e.drop_first(), k));
        }
    }
}

/// Appending an entry for a key that is not there adds that key only.
proof fn lemma_lookup_push(e: Seq<(Seq<char>, Seq<char>)>, key: Seq<char>, body: Seq<char>)
    requires
        lookup(e, key) is None,
    ensures
        lookup(e.push((key, body)), key) == Some(body),
        forall|k: Seq<char>| k != key ==> lookup(e.push((key, body)), k) == lookup(e, k),
    decreases e.len(),
{
    let p = e.push((key, body));
    if e.len() > 0 {
        assert(p.drop_first() =~= e.drop_first().push((key, body)));
        lemma_lookup_push(e.drop_first(), key, body);
        assert forall|k: Seq<char>| k != key implies lookup(p, k) == lookup(e, k) by {
            assert(p[0] == e[0]);
            assert(lookup(e.drop_first().push((key, body)), k) == lookup(e.drop_first(), k));
        }
    } else {
        assert(p.drop_first() =~= Seq::<(Seq<char>, Seq<char>)>::empty());
        assert forall|k: Seq<char>| k != key implies lookup(p, k) == lookup(e, k) by {
            assert(p[0].0 == key);
            assert(lookup(p.drop_first(), k) is None);
        }
    }
}

/// Which configured page goes with a status code.
#[derive(Debug, Clone, Copy, PartialEq, Eq, Structural)]
pub enum PageKind {
    /// The 404 page.
    NotFound,
    /// The 50x page.
    ServerError,
    /// A 4xx code other than 404: the default page.
    ClientError,
    /// Any other code: the default page.
    Other,
}

/// The 4xx codes that get an HTML error page.
pub open spec fn is_client_error_code(code: u16) -> bool {
    code == 400 || code == 401 || code == 402 || code == 403 || code == 404 || code == 405 || code
        == 406 || code == 407 || code == 408 || code == 409 || code == 410 || code == 411 || code
        == 412 || code == 413 || code == 414 || code == 415 || code == 416 || code == 417
}

/// The 50x codes that get an HTML error page.
pub open spec fn is_server_error_code(code: u16) -> bool {
    code == 500 || code == 501 || code == 502 || code == 503 || code == 504 || code == 505 || code
        == 506 || code == 507 || code == 508
}

/// Classifies a status code.
pub fn page_kind(code: u16) -> (k: PageKind)
    ensures
        k == if code == 404 {
            PageKind::NotFound
        } else if is_client_error_code(code) {
            PageKind::ClientError
        } else if is_server_error_code(code) {
            PageKind::ServerError
        } else {
            PageKind::Other
        },
{
    if code == 404 {
        PageKind::NotFound
    } else if (400 <= code && code <= 417) {
        PageKind::ClientError
    } else if (500 <= code && code <= 508) {
        PageKind::ServerError
    } else {
        PageKind::Other
    }
}

/// The default HTML error page for a status code and its reason phrase.
pub open spec fn default_page(code: u16, reason: Seq<char>) -> Seq<char> {
    let title = dec(code as nat) + " "@ + reason;
    "<!DOCTYPE html><html><head><meta charset=\"utf-8\"><meta name=\"viewport\" content=\"width=device-width,minimum-scale=1,initial-scale=1\"><title>"@
        + title
        + "</title><style>html { color-scheme: light dark; } body { font-family: sans-serif; text-align: center; }</style></head><body><h1>"@
        + title + "</h1></body></html>"@
}

/// An HTML response.
#[derive(Debug)]
pub struct HtmlResponse {
    /// The status code.
    pub status: u16,
    /// The page (sent unless the request is `HEAD`).
    pub body: String,
    /// Whether the body is sent.
    pub send_body: bool,
    /// `Content-Length`: the byte length of the page, also for `HEAD`.
    pub content_length: u64,
}

/// The number of bytes in the UTF-8 encoding of some text.
pub open spec fn byte_len(s: Seq<char>) -> nat {
    encode_utf8(s).len()
}

/// The `text/html; charset=utf-8` content type of HTML responses.
pub const TEXT_HTML_UTF_8: &'static str = "text/html; charset=utf-8";

/// An HTML response with the correct `Content-Length`. For `HEAD` the
/// body is omitted but the length still reflects the full content; with no
/// method the body is always sent.
pub fn build_html_response(content: String, status: u16, method: Option<&Method>) -> (r:
    HtmlResponse)
    ensures
        r.status == status,
        r.body@ == content@,
        byte_len(content@) <= usize::MAX ==> r.content_length == byte_len(content@),
        r.send_body == !(method matches Some(m) && is_head_method(*m)),
{
    let len = content.as_str().len() as u64;
    let is_head = match method {
        Some(m) => m.is_head(),
        None => false,
    };
    HtmlResponse { status, body: content, send_body: !is_head, content_length: len }
}

/// The page content for an error status: the cached 404 or 50x page when
/// there is one (and it is not empty), else the default page.
pub open spec fn error_page_content(
    code: u16,
    pages: Map<Seq<char>, Seq<char>>,
    page404: Seq<char>,
    page50x: Seq<char>,
) -> Seq<char> {
    let cached = if code == 404 && pages.contains_key(page404) {
        pages[page404]
    } else if is_server_error_code(code) && pages.contains_key(page50x) {
        pages[page50x]
    } else {
        Seq::empty()
    };
    if cached.len() > 0 {
        cached
    } else {
        default_page(
            code,
            match reason_phrase(code) {
                Some(r) => r,
                None => Seq::empty(),
            },
        )
    }
}

/// Builds the default error page.
pub(crate) fn default_page_for(code: u16) -> (s: String)
    requires
        100 <= code <= 999,
    ensures
        s@ == default_page(
            code,
            match reason_phrase(code) {
                Some(r) => r,
                None => Seq::empty(),
            },
        ),
{
    let mut title = String::new();
    push_dec(&mut title, code as u64);
    title.append(" ");
    match canonical_reason(code) {
        Some(r) => title.append(r),
        None => {},
    }
    let mut s = String::from_str(
        "<!DOCTYPE html><html><head><meta charset=\"utf-8\"><meta name=\"viewport\" content=\"width=device-width,minimum-scale=1,initial-scale=1\"><title>",
    );
    s.append(title.as_str());
    s.append(
        "</title><style>html { color-scheme: light dark; } body { font-family: sans-serif; text-align: center; }</style></head><body><h1>",
    );
    s.append(title.as_str());
    s.append("</h1></body></html>");
    assert(s@ =~= default_page(
        code,
        match reason_phrase(code) {
            Some(r) => r,
            None => Seq::empty(),
        },
    ));
    s
}

/// The HTML response for an error status code: the pre-loaded 404 page
/// for 404, the pre-loaded 50x page for the 50x codes, else (or when that
/// page is missing or empty) the default page titled with the code and its
/// reason phrase.
pub fn error_response(
    method: &Method,
    status_code: u16,
    page404: &str,
    page50x: &str,
    cache: &PageCache,
) -> (r: HtmlResponse)
    requires
        100 <= status_code <= 999,
    ensures
        r.status == status_code,
        r.body@ == error_page_content(status_code, cache.pages(), page404@, page50x@),
        byte_len(r.body@) <= usize::MAX ==> r.content_length == byte_len(r.body@),
        r.send_body == !is_head_method(*method),
{
    let kind = page_kind(status_code);
    let cached = match kind {
        PageKind::NotFound => cache.cached_page(page404),
        PageKind::ServerError => cache.cached_page(page50x),
        _ => None,
    };
    let content = match cached {
        Some(c) => {
            if c.as_str().is_empty() {
                default_page_for(status_code)
            } else {
                c
            }
        },
        None => default_page_for(status_code),
    };
    build_html_response(content, status_code, Some(method))
}

/// The configured page file that goes with a status code and is not in the
/// cache yet: the 404 page for 404, the 50x page for the 50x codes, when
/// its path is not empty and the cache has no entry for it.
pub open spec fn page_to_load_spec(
    code: u16,
    pages: Map<Seq<char>, Seq<char>>,
    page404: Seq<char>,
    page50x: Seq<char>,
) -> Option<Seq<char>> {
    let page = if code == 404 {
        Some(page404)
    } else if is_server_error_code(code) {
        Some(page50x)
    } else {
        None
    };
    match page {
        Some(p) => if p.len() > 0 && !pages.contains_key(p) {
            Some(p)
        } else {
            None
        },
        None => None,
    }
}

/// The page file to read before answering `status_code` with
/// `error_response`, when it is not cached yet. The caller reads what the
/// path names, hands it to `PageCache::cache_page`, and then answers: a
/// page read once is served from the cache from then on.
pub fn page_to_load(status_code: u16, page404: &str, page50x: &str, cache: &PageCache) -> (r:
    Option<String>)
    ensures
        match r {
            Some(p) => page_to_load_spec(status_code, cache.pages(), page404@, page50x@) == Some(
                p@,
            ),
            None => page_to_load_spec(status_code, cache.pages(), page404@, page50x@) is None,
        },
{
    let page = match page_kind(status_code) {
        PageKind::NotFound => page404,
        PageKind::ServerError => page50x,
        _ => {
            return None;
        },
    };
    if page.is_empty() {
        return None;
    }
    match cache.cached_page(page) {
        Some(_) => None,
        None => Some(String::from_str(page)),
    }
}

} // verus!

verus! {

/// A page loaded into the cache reads back as it was stored, and the other
/// pages stay as they were.
pub proof fn lemma_cached_page_reads_back(
    pages: Map<Seq<char>, Seq<char>>,
    path: Seq<char>,
    body: Seq<char>,
    other: Seq<char>,
)
    requires
        other != path,
    ensures
        pages.insert(path, body).contains_key(path),
        pages.insert(path, body)[path] == body,
        pages.insert(path, body).contains_key(other) == pages.contains_key(other),
        pages.contains_key(other) ==> pages.insert(path, body)[other] == pages[other],
{
}

/// Once a non-empty 404 page is in the cache, 404 answers serve it; once a
/// non-empty 50x page is, the server errors serve it.
pub proof fn lemma_cached_pages_are_served(
    pages: Map<Seq<char>, Seq<char>>,
    page404: Seq<char>,
    page50x: Seq<char>,
    body: Seq<char>,
    code: u16,
)
    requires
        body.len() > 0,
    ensures
        error_page_content(404, pages.insert(page404, body), page404, page50x) == body,
        is_server_error_code(code) ==> error_page_content(
            code,
            pages.insert(page50x, body),
            page404,
            page50x,
        ) == body,
{
}

/// Once the page that `page_to_load` names has been put into the cache, no
/// page is left to load for that status code, and a non-empty page is what
/// the error response serves.
pub proof fn lemma_loaded_page_is_kept(
    pages: Map<Seq<char>, Seq<char>>,
    page404: Seq<char>,
    page50x: Seq<char>,
    code: u16,
    body: Seq<char>,
)
    requires
        page_to_load_spec(code, pages, page404, page50x) is Some,
    ensures
        ({
            let p = page_to_load_spec(code, pages, page404, page50x).unwrap();
            &&& page_to_load_spec(code, pages.insert(p, body), page404, page50x) is None
            &&& body.len() > 0 ==> error_page_content(code, pages.insert(p, body), page404, page50x)
                == body
        }),
{
}

} // verus!
