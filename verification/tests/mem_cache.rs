use static_web_server::mem_cache::{
    cache_limits, init, CacheLimits, MemCacheOpts, MemCacheStore, MemFile, MemoryCache, DEFAULT_CAPACITY,
    DEFAULT_MAX_FILE_SIZE, DEFAULT_TTI, DEFAULT_TTL, MAX_CAPACITY, MAX_FILE_SIZE, MAX_TTI,
    MAX_TTL, X_CACHE, X_CACHE_HIT,
};
use static_web_server::http_ext::Method;
use static_web_server::range_header::Range;

#[test]
fn mem_cache_opts_converts_kib_to_bytes() {
    let opts = MemCacheOpts::new(8192);
    assert_eq!(opts.max_file_size, 8192 * 1024);
}

#[test]
fn mem_cache_opts_zero_size() {
    let opts = MemCacheOpts::new(0);
    assert_eq!(opts.max_file_size, 0);
}

#[test]
fn default_constants_are_sane() {
    assert_eq!(DEFAULT_CAPACITY, 100);
    assert_eq!(DEFAULT_TTL, 1800);
    assert_eq!(DEFAULT_TTI, 300);
    assert_eq!(DEFAULT_MAX_FILE_SIZE, 8192);
}

#[test]
fn max_constants_enforce_upper_bounds() {
    const {
        assert!(MAX_CAPACITY >= DEFAULT_CAPACITY);
    }
    const {
        assert!(MAX_TTL >= DEFAULT_TTL);
    }
    const {
        assert!(MAX_TTI >= DEFAULT_TTI);
    }
    const {
        assert!(MAX_FILE_SIZE >= DEFAULT_MAX_FILE_SIZE);
    }
}

#[test]
fn init_returns_ok_without_memory_cache_section() {
    assert!(init(None).is_none());
}

#[test]
fn init_with_defaults_creates_cache() {
    let section = MemoryCache {
        capacity: None,
        ttl: None,
        tti: None,
        max_file_size: None,
    };
    let (limits, opts) = init(Some(&section)).unwrap();
    assert_eq!(limits.capacity, DEFAULT_CAPACITY);
    assert_eq!(limits.ttl, DEFAULT_TTL);
    assert_eq!(limits.tti, DEFAULT_TTI);
    assert_eq!(opts.max_file_size, DEFAULT_MAX_FILE_SIZE * 1024);
}

#[test]
fn init_clamps_values_to_max() {
    let capacity = 999_999u64.min(MAX_CAPACITY);
    let ttl = 999_999u64.min(MAX_TTL);
    let tti = 999_999u64.min(MAX_TTI);
    let max_file_size = 999_999u64.min(MAX_FILE_SIZE);

    assert_eq!(capacity, MAX_CAPACITY);
    assert_eq!(ttl, MAX_TTL);
    assert_eq!(tti, MAX_TTI);
    assert_eq!(max_file_size, MAX_FILE_SIZE);

    let opts = MemCacheOpts::new(max_file_size);
    assert_eq!(opts.max_file_size, MAX_FILE_SIZE * 1024);

    let limits = cache_limits(&MemoryCache {
        capacity: Some(999_999),
        ttl: Some(999_999),
        tti: Some(999_999),
        max_file_size: Some(999_999),
    });
    assert_eq!(limits.capacity, MAX_CAPACITY);
    assert_eq!(limits.ttl, MAX_TTL);
    assert_eq!(limits.tti, MAX_TTI);
    assert_eq!(limits.max_file_size, MAX_FILE_SIZE);
}

#[test]
fn x_cache_header_constants_are_valid() {
    assert_eq!(X_CACHE, "x-cache");
    assert_eq!(X_CACHE_HIT, "HIT");
}

#[test]
fn cached_file_serves_requested_range() {
    let file = MemFile::new(
        b"0123456789".to_vec(),
        "text/plain".to_string(),
        None,
        Some("W/\"1-a\"".to_string()),
    );
    let full = file.response_body(None);
    assert_eq!(full.reply.status, 200);
    assert_eq!(full.body, b"0123456789".to_vec());
    assert_eq!(full.reply.content_length, Some(10));
    assert!(full.cache_hit);

    let part = file.response_body(Range::decode("bytes=2-4"));
    assert_eq!(part.reply.status, 206);
    assert_eq!(part.body, b"234".to_vec());
    assert_eq!(part.reply.content_range.as_deref(), Some("bytes 2-4/10"));
    assert_eq!(part.reply.content_length, Some(3));

    let bad = file.response_body(Range::decode("bytes=20-30"));
    assert_eq!(bad.reply.status, 416);
    assert!(bad.body.is_empty());
    assert_eq!(bad.reply.content_range.as_deref(), Some("bytes */10"));
}

#[test]
fn init_returns_ok_without_advanced_opts() {
    assert!(init(None).is_none());
}

fn small_store() -> MemCacheStore {
    MemCacheStore::new(&CacheLimits { capacity: 10, ttl: 60, tti: 60, max_file_size: 1 })
}

fn text_file(data: &[u8]) -> MemFile {
    MemFile::new(data.to_vec(), "text/plain".to_string(), Some("Sun, 06 Nov 1994 08:49:37 GMT".to_string()), None)
}

#[test]
fn store_serves_an_admitted_file() {
    let store = small_store();
    let opts = MemCacheOpts::new(1);
    assert!(store.lookup("/www/a.txt", None).is_none());
    assert!(store.offer(&opts, &Method::Get, "/www/a.txt", text_file(b"hello"), 200));
    let hit = store.lookup("/www/a.txt", Range::decode("bytes=1-3")).unwrap();
    assert!(hit.cache_hit);
    assert_eq!(hit.reply.status, 206);
    assert_eq!(hit.body, b"ell".to_vec());
    assert_eq!(hit.reply.content_range.as_deref(), Some("bytes 1-3/5"));
    assert_eq!(hit.last_modified.as_deref(), Some("Sun, 06 Nov 1994 08:49:37 GMT"));
    assert!(store.lookup("/www/b.txt", None).is_none());
}

#[test]
fn store_refuses_partial_head_and_large_files() {
    let store = small_store();
    let opts = MemCacheOpts::new(1);
    assert!(!store.offer(&opts, &Method::Get, "/www/p.txt", text_file(b"hello"), 206));
    assert!(!store.offer(&opts, &Method::Head, "/www/h.txt", text_file(b"hello"), 200));
    assert!(!store.offer(&opts, &Method::Get, "/www/big.txt", text_file(&[b'x'; 1025]), 200));
    assert!(store.offer(&opts, &Method::Get, "/www/fits.txt", text_file(&[b'x'; 1024]), 200));
    assert!(store.lookup("/www/p.txt", None).is_none());
    assert!(store.lookup("/www/h.txt", None).is_none());
    assert!(store.lookup("/www/big.txt", None).is_none());
}
