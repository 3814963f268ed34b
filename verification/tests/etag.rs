use static_web_server::etag::{build_from_meta, build_from_parts, EntityTag, ETAG_MAX_LEN};
use std::time::{Duration, UNIX_EPOCH};

#[test]
fn etag_has_weak_prefix_and_dash_separator() {
    let (_, hv) = build_from_parts(0x1234_5678, 42);
    let s = hv.as_str();
    assert!(s.starts_with("W/\""), "{s}");
    assert!(s.ends_with('"'), "{s}");
    assert_eq!(s, "W/\"12345678-2a\"");
}

#[test]
fn etag_changes_when_size_changes() {
    let (_, a) = build_from_parts(1_000, 10);
    let (_, b) = build_from_parts(1_000, 11);
    assert_ne!(a, b);
}

#[test]
fn etag_changes_when_mtime_changes() {
    let (_, a) = build_from_parts(1_000, 10);
    let (_, b) = build_from_parts(1_001, 10);
    assert_ne!(a, b);
}

#[test]
fn etag_is_stable_for_same_inputs() {
    let (_, a) = build_from_parts(1_700_000_000_000_000_000, 4096);
    let (_, b) = build_from_parts(1_700_000_000_000_000_000, 4096);
    assert_eq!(a, b);
}

#[test]
fn etag_max_value_fits_capacity() {
    let (_, hv) = build_from_parts(u128::MAX, u64::MAX);
    assert!(hv.as_bytes().len() <= ETAG_MAX_LEN);
}

#[test]
fn build_from_meta_returns_some_for_real_file() {
    let result = build_from_meta(Some(1_700_000_000_000_000_000), 3);
    let (_, hv) = result.expect("expected an ETag for a file with a modification time");
    let s = hv.as_str();
    assert!(s.starts_with("W/\""));
    assert!(s.ends_with("-3\""), "expected length suffix: {s}");
}

#[test]
fn typed_etag_round_trips() {
    let nanos = 1_700_000_000_000_000_000u128;
    let (tag, hv) = build_from_parts(nanos, 4096);
    let reparsed: headers::ETag = hv.as_str().parse().unwrap();
    assert_eq!(tag.typed(), &reparsed);
    assert_eq!(tag, EntityTag::parse(hv.as_str()).unwrap());
}

#[test]
fn build_from_meta_returns_none_for_unix_epoch_mtime() {
    let _ = UNIX_EPOCH + Duration::ZERO;
    assert!(build_from_meta(Some(0), 10).is_none());
    assert!(build_from_meta(None, 10).is_none());
}

#[test]
fn entity_tag_parse_accepts_strong_and_weak_forms() {
    assert!(EntityTag::parse("\"abc\"").is_some());
    assert!(EntityTag::parse("W/\"abc\"").is_some());
    assert!(EntityTag::parse("W/\"").is_none());
    assert!(EntityTag::parse("abc").is_none());
    assert!(EntityTag::parse("\"a\"b\"").is_none());
}
