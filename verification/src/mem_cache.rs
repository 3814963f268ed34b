//! In-memory file cache: its limits and the responses served from it.
//!
//! The store itself (a concurrent cache with time-to-live and
//! time-to-idle eviction) lives with the server; this module decides the
//! limits it is built with and answers requests from a cached file.
use vstd::prelude::*;

use crate::http_ext::{is_head_method, Method, MethodExt};
use crate::range_header::{is_range_value, Range};
use crate::response::{
    bytes_range_spec, content_range_spec, plan_range_reply, unsatisfied_range_spec, RangeReply,
};

verus! {

/// The `x-cache` response header name.
pub const X_CACHE: &'static str = "x-cache";

/// The `x-cache` value of a response served from the cache.
pub const X_CACHE_HIT: &'static str = "HIT";

/// Default maximum number of cached files.
pub const DEFAULT_CAPACITY: u64 = 100;
/// Default time to live of a cached file, in seconds.
pub const DEFAULT_TTL: u64 = 1800;
/// Default time to idle of a cached file, in seconds.
pub const DEFAULT_TTI: u64 = 300;
/// Default maximum size of a cached file, in KiB.
pub const DEFAULT_MAX_FILE_SIZE: u64 = 8192;

/// Upper bound of the number of cached files.
pub const MAX_CAPACITY: u64 = 100_000;
/// Upper bound of the time to live, in seconds.
pub const MAX_TTL: u64 = 86_400;
/// Upper bound of the time to idle, in seconds.
pub const MAX_TTI: u64 = 3_600;
/// Upper bound of the maximum size of a cached file, in KiB.
pub const MAX_FILE_SIZE: u64 = 32_768;

/// In-memory cache options as used by the request handler.
#[derive(Debug, Clone, Copy, PartialEq, Eq)]
pub struct MemCacheOpts {
    /// Maximum size of a file that may be cached, in bytes.
    pub max_file_size: u64,
}

impl MemCacheOpts {
    /// Options for a maximum file size given in KiB.
    pub fn new(max_file_size: u64) -> (r: Self)
        requires
            max_file_size * 1024 <= u64::MAX,
        ensures
            r.max_file_size == max_file_size * 1024,
    {
        Self { max_file_size: max_file_size * 1024 }
    }
}

/// The `memory-cache` section of the configuration file.
#[derive(Debug, Clone, Copy, PartialEq, Eq)]
pub struct MemoryCache {
    /// Maximum number of cached files.
    pub capacity: Option<u64>,
    /// Time to live of a cached file, in seconds.
    pub ttl: Option<u64>,
    /// Time to idle of a cached file, in seconds.
    pub tti: Option<u64>,
    /// Maximum size of a cached file, in KiB.
    pub max_file_size: Option<u64>,
}

/// The limits that the cache store is built with.
#[derive(Debug, Clone, Copy, PartialEq, Eq)]
pub struct CacheLimits {
    /// Maximum number of cached files.
    pub capacity: u64,
    /// Time to live of a cached file, in seconds.
    pub ttl: u64,
    /// Time to idle of a cached file, in seconds.
    pub tti: u64,
    /// Maximum size of a cached file, in KiB.
    pub max_file_size: u64,
}

/// A configured value, or its default, capped at its upper bound.
pub open spec fn capped(v: Option<u64>, default: u64, max: u64) -> u64 {
    let x = match v {
        Some(x) => x,
        None => default,
    };
    if x < max {
        x
    } else {
        max
    }
}

/// `v.unwrap_or(default).min(max)`.
fn cap(v: Option<u64>, default: u64, max: u64) -> (r: u64)
    ensures
        r == capped(v, default, max),
{
    let x = match v {
        Some(x) => x,
        None => default,
    };
    if x < max {
        x
    } else {
        max
    }
}

/// The limits for a `memory-cache` section: each value defaults when
/// absent and never exceeds its upper bound.
pub fn cache_limits(opts: &MemoryCache) -> (r: CacheLimits)
    ensures
        r.capacity == capped(opts.capacity, DEFAULT_CAPACITY, MAX_CAPACITY),
        r.ttl == capped(opts.ttl, DEFAULT_TTL, MAX_TTL),
        r.tti == capped(opts.tti, DEFAULT_TTI, MAX_TTI),
        r.max_file_size == capped(opts.max_file_size, DEFAULT_MAX_FILE_SIZE, MAX_FILE_SIZE),
        r.capacity <= MAX_CAPACITY && r.ttl <= MAX_TTL && r.tti <= MAX_TTI && r.max_file_size
            <= MAX_FILE_SIZE,
{
    CacheLimits {
        capacity: cap(opts.capacity, DEFAULT_CAPACITY, MAX_CAPACITY),
        ttl: cap(opts.ttl, DEFAULT_TTL, MAX_TTL),
        tti: cap(opts.tti, DEFAULT_TTI, MAX_TTI),
        max_file_size: cap(opts.max_file_size, DEFAULT_MAX_FILE_SIZE, MAX_FILE_SIZE),
    }
}

/// Whether the cache is enabled and with what: without a `memory-cache`
/// section it is disabled; with one, the store limits and the handler
/// options (maximum file size in bytes).
pub fn init(memory_cache: Option<&MemoryCache>) -> (r: Option<(CacheLimits, MemCacheOpts)>)
    ensures
        match memory_cache {
            None => r is None,
            Some(opts) => r matches Some((limits, mem_opts)) && limits == cache_limits_spec(*opts)
                && mem_opts.max_file_size == limits.max_file_size * 1024,
        },
{
    match memory_cache {
        None => None,
        Some(opts) => {
            let limits = cache_limits(opts);
            let mem_opts = MemCacheOpts::new(limits.max_file_size);
            Some((limits, mem_opts))
        },
    }
}

/// The limits for a `memory-cache` section (see `cache_limits`).
pub open spec fn cache_limits_spec(opts: MemoryCache) -> CacheLimits {
    CacheLimits {
        capacity: capped(opts.capacity, DEFAULT_CAPACITY, MAX_CAPACITY),
        ttl: capped(opts.ttl, DEFAULT_TTL, MAX_TTL),
        tti: capped(opts.tti, DEFAULT_TTI, MAX_TTI),
        max_file_size: capped(opts.max_file_size, DEFAULT_MAX_FILE_SIZE, MAX_FILE_SIZE),
    }
}

/// A cached file.
#[derive(Debug)]
pub struct MemFile {
    data: Vec<u8>,
    content_type: String,
    last_modified: Option<String>,
    etag: Option<String>,
}

/// A response served from a cached file.
#[derive(Debug)]
pub struct MemResponse {
    /// Status and range headers.
    pub reply: RangeReply,
    /// The bytes sent.
    pub body: Vec<u8>,
    /// `Content-Type`.
    pub content_type: String,
    /// `Last-Modified`, when known.
    pub last_modified: Option<String>,
    /// `ETag`, when known.
    pub etag: Option<String>,
    /// Whether the `x-cache: HIT` header goes with the response.
    pub cache_hit: bool,
}

/// What a response served from the cached file `f` for `range` is (see
/// `MemFile::response_body`).
pub open spec fn serves(f: MemFile, range: Option<Range>, r: MemResponse) -> bool {
    &&& r.content_type@ == f.content_type()
    &&& r.last_modified == f.last_modified()
    &&& r.etag == f.etag()
    &&& r.cache_hit
    &&& match bytes_range_spec(
                match range {
                    Some(v) => Some(v@),
                    None => None,
                },
                f.data().len() as u64,
            ) {
                Ok((start, end)) => {
                    &&& r.body@ == f.data().subrange(start as int, end as int)
                    &&& r.reply.start == start && r.reply.end == end
                    &&& r.reply.content_length == Some((end - start) as u64)
                    &&& if end - start != f.data().len() {
                        &&& r.reply.status == 206
                        &&& r.reply.content_range matches Some(c) && c@ == content_range_spec(
                            start,
                            end,
                            f.data().len() as u64,
                        )
                    } else {
                        r.reply.status == 200 && r.reply.content_range is None
                    }
                },
                Err(_) => {
                    &&& r.body@.len() == 0
                    &&& r.reply.status == 416
                    &&& r.reply.content_length is None
                    &&& r.reply.content_range matches Some(c) && c@ == unsatisfied_range_spec(
                        f.data().len() as u64,
                    )
                },
            }
}

impl MemFile {
    /// A cached file with its contents and response headers.
    pub fn new(
        data: Vec<u8>,
        content_type: String,
        last_modified: Option<String>,
        etag: Option<String>,
    ) -> (r: Self)
        ensures
            r.data() == data@,
            r.content_type() == content_type@,
            r.last_modified() == last_modified,
            r.etag() == etag,
    {
        Self { data, content_type, last_modified, etag }
    }

    /// The cached contents.
    pub closed spec fn data(&self) -> Seq<u8> {
        self.data@
    }

    /// The cached content type.
    pub closed spec fn content_type(&self) -> Seq<char> {
        self.content_type@
    }

    /// The cached `Last-Modified` value, if any.
    pub closed spec fn last_modified(&self) -> Option<String> {
        self.last_modified
    }

    /// The cached `ETag` value, if any.
    pub closed spec fn etag(&self) -> Option<String> {
        self.etag
    }

    /// Serves the file for a request with an optional `Range`: the status
    /// and range headers of `plan_range_reply`, and exactly the bytes that
    /// they announce (none for 416).
    pub fn response_body(&self, range: Option<Range>) -> (r: MemResponse)
        requires
            range matches Some(v) ==> is_range_value(v@),
            self.data().len() <= u64::MAX,
        ensures
            serves(*self, range, r),
    {
        let total_len = self.data.len() as u64;
        let reply = plan_range_reply(range, total_len);
        let mut body: Vec<u8> = Vec::new();
        if reply.status != 416 {
            let mut i = reply.start as usize;
            let end = reply.end as usize;
            while i < end
                invariant
                    reply.start <= i <= end <= self.data@.len(),
                    end == reply.end,
                    body@ == self.data@.subrange(reply.start as int, i as int),
                decreases end - i,
            {
                body.push(self.data[i]);
                i = i + 1;
                assert(body@ =~= self.data@.subrange(reply.start as int, i as int));
            }
        }
        MemResponse {
            reply,
            body,
            content_type: self.content_type.clone(),
            last_modified: match &self.last_modified {
                Some(v) => Some(v.clone()),
                None => None,
            },
            etag: match &self.etag {
                Some(v) => Some(v.clone()),
                None => None,
            },
            cache_hit: true,
        }
    }
}

} // verus!

verus! {

/// `mini_moka::sync::Cache`, the concurrent store with time-to-live and
/// time-to-idle expiry that holds the cached files.
#[verifier::external_type_specification]
#[verifier::external_body]
#[verifier::reject_recursive_types(K)]
#[verifier::reject_recursive_types(V)]
#[verifier::reject_recursive_types(S)]
pub struct ExMokaCache<K, V, S>(mini_moka::sync::Cache<K, V, S>);

/// The limits a store was built with: its maximum number of entries, its
/// time to live and its time to idle, in seconds. They are fixed when the
/// store is built.
pub uninterp spec fn store_limits(store: mini_moka::sync::Cache<String, std::sync::Arc<MemFile>>) -> (
    u64,
    u64,
    u64,
);

/// The paths that a store is given over its whole life: a path is among
/// them once anything has been inserted under it. What the store holds at
/// a given moment is a part of these (entries expire and are evicted).
pub uninterp spec fn offered_keys(store: mini_moka::sync::Cache<String, std::sync::Arc<MemFile>>) -> Set<
    Seq<char>,
>;

/// `Cache::builder()` with a maximum number of entries, a time to live and
/// a time to idle (in seconds), then `build()`: a store with exactly these
/// limits. The builder panics on a time longer than 1000 years, which the
/// `requires` rules out.
#[verifier::external_body]
fn build_store(capacity: u64, ttl: u64, tti: u64) -> (r: mini_moka::sync::Cache<
    String,
    std::sync::Arc<MemFile>,
>)
    requires
        ttl <= MAX_TTL,
        tti <= MAX_TTI,
    ensures
        store_limits(r) == (capacity, ttl, tti),
{
    mini_moka::sync::Cache::builder()
        .max_capacity(capacity)
        .time_to_live(std::time::Duration::from_secs(ttl))
        .time_to_idle(std::time::Duration::from_secs(tti))
        .build()
}

/// `Cache::get`: a clone of the file stored under a path, if any. A hit
/// is only ever for a path that was inserted; which file comes back, and
/// whether any does, is not stated: an entry may have expired or been
/// evicted at any moment, and another thread may have stored it.
#[verifier::external_body]
fn store_get(store: &mini_moka::sync::Cache<String, std::sync::Arc<MemFile>>, path: &str) -> (r:
    Option<std::sync::Arc<MemFile>>)
    ensures
        r is Some ==> offered_keys(*store).contains(path@),
{
    store.get(&path.to_string())
}

/// `Cache::insert`: stores a file under a path, replacing what was there,
/// and gives back that path. The path is then among those the store was
/// given; whether the entry is still there later is not stated: the
/// admission policy may refuse it, and it may be evicted at once.
#[verifier::external_body]
fn store_insert(
    store: &mini_moka::sync::Cache<String, std::sync::Arc<MemFile>>,
    path: String,
    file: std::sync::Arc<MemFile>,
) -> (k: String)
    ensures
        k@ == path@,
        offered_keys(*store).contains(k@),
{
    let key = path.clone();
    store.insert(path, file);
    key
}

/// Whether a served file goes into the cache: the whole file was sent to
/// a request that reads the body (not `HEAD`), with a 200 reply, and it
/// is no larger than the maximum file size.
pub open spec fn admits_spec(opts: MemCacheOpts, method: Method, len: u64, status: u16) -> bool {
    &&& !is_head_method(method)
    &&& status == 200
    &&& len <= opts.max_file_size
}

/// The in-memory store of cached files, keyed by file path.
pub struct MemCacheStore {
    files: mini_moka::sync::Cache<String, std::sync::Arc<MemFile>>,
}

impl MemCacheStore {
    /// The limits the store was built with: capacity, time to live and time
    /// to idle.
    pub closed spec fn limits(&self) -> (u64, u64, u64) {
        store_limits(self.files)
    }

    /// The paths the store has been given over its life.
    pub closed spec fn keys(&self) -> Set<Seq<char>> {
        offered_keys(self.files)
    }

    /// A store built with the given limits.
    pub fn new(limits: &CacheLimits) -> (r: Self)
        requires
            limits.ttl <= MAX_TTL,
            limits.tti <= MAX_TTI,
        ensures
            r.limits() == (limits.capacity, limits.ttl, limits.tti),
    {
        MemCacheStore { files: build_store(limits.capacity, limits.ttl, limits.tti) }
    }

    /// Serves a file from the store when it holds one for the path: the
    /// response of `MemFile::response_body` for the request's range,
    /// marked as a cache hit; `None` on a miss.
    pub fn lookup(&self, path: &str, range: Option<Range>) -> (r: Option<MemResponse>)
        requires
            range matches Some(v) ==> is_range_value(v@),
        ensures
            r is Some ==> self.keys().contains(path@),
            r matches Some(resp) ==> exists|f: MemFile| #[trigger] serves(f, range, resp),
    {
        match store_get(&self.files, path) {
            None => None,
            Some(file) => {
                let f: &MemFile = &*file;
                let _len: usize = f.data.len();
                let resp = f.response_body(range);
                assert(serves(*f, range, resp));
                Some(resp)
            },
        }
    }

    /// Offers a served file to the store: it is stored under its path
    /// exactly when `admits_spec` holds, and the result says whether it
    /// was.
    pub fn offer(
        &self,
        opts: &MemCacheOpts,
        method: &Method,
        path: &str,
        file: MemFile,
        status: u16,
    ) -> (r: bool)
        ensures
            r == admits_spec(*opts, *method, file.data().len() as u64, status),
            r ==> self.keys().contains(path@),
    {
        let len: usize = file.data.len();
        if method.is_head() || status != 200 || len as u64 > opts.max_file_size {
            return false;
        }
        let _key = store_insert(&self.files, String::from_str(path), std::sync::Arc::new(file));
        true
    }
}

} // verus!
