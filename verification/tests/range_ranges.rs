use static_web_server::range_header::{Bound, Range};
use static_web_server::range::bytes_range;

/// Reads `bytes=<spec>` as a `Range` header value.
fn range(spec: &str) -> Option<Range> {
    Range::decode(&format!("bytes={spec}"))
}

#[test]
fn range_no_range_returns_full_file() {
    assert_eq!(bytes_range(None, 1000).unwrap(), (0, 1000));
}

#[test]
fn range_inclusive_range_within_bounds() {
    assert_eq!(bytes_range(range("0-499"), 1000).unwrap(), (0, 500));
}

#[test]
fn range_inclusive_range_to_last_byte() {
    assert_eq!(bytes_range(range("500-999"), 1000).unwrap(), (500, 1000));
}

#[test]
fn range_suffix_range_within_file() {
    assert_eq!(bytes_range(range("-200"), 1000).unwrap(), (800, 1000));
}

#[test]
fn range_suffix_range_larger_than_file_returns_full() {
    assert_eq!(bytes_range(range("-2000"), 1000).unwrap(), (0, 1000));
}

#[test]
fn range_enormous_suffix_range_returns_full() {
    assert_eq!(
        bytes_range(range("-18446744073709551616"), 1000).unwrap(),
        (0, 1000)
    );
}

#[test]
fn range_open_ended_range_from_offset() {
    assert_eq!(bytes_range(range("100-"), 1000).unwrap(), (100, 1000));
}

#[test]
fn range_range_start_equals_end_is_single_byte() {
    assert_eq!(bytes_range(range("5-5"), 1000).unwrap(), (5, 6));
}

#[test]
fn range_range_start_greater_than_end_is_error() {
    assert!(bytes_range(range("100-50"), 1000).is_err());
}

#[test]
fn range_range_start_beyond_file_size_is_error() {
    assert!(bytes_range(range("2000-3000"), 1000).is_err());
}

#[test]
fn range_open_ended_range_starting_at_file_size_is_error() {
    assert!(bytes_range(range("1000-"), 1000).is_err());
}

#[test]
fn range_out_of_bounds_first_byte_ranges_are_errors() {
    assert!(bytes_range(range("5000-"), 100).is_err());
    assert!(bytes_range(range("5000-5999"), 100).is_err());
    assert!(bytes_range(range("100-199"), 100).is_err());
}

#[test]
fn range_range_end_beyond_file_size_is_clamped() {
    assert_eq!(bytes_range(range("50-999"), 100).unwrap(), (50, 100));
}

#[test]
fn range_huge_range_end_does_not_overflow() {
    assert_eq!(
        bytes_range(range("0-18446744073709551615"), 100).unwrap(),
        (0, 100)
    );
}

#[test]
fn range_invalid_empty_range_is_error() {
    assert!(bytes_range(range("-"), 100).is_err());
}

#[test]
fn range_range_on_zero_byte_file_is_unsatisfiable() {
    assert!(bytes_range(range("0-0"), 0).is_err());
    assert!(bytes_range(range("-1"), 0).is_err());
    assert!(bytes_range(range("0-"), 0).is_err());
}

#[test]
fn range_later_satisfiable_range_is_used() {
    assert_eq!(bytes_range(range("200-300,0-9"), 100).unwrap(), (0, 10));
}

#[test]
fn range_suffix_range_equal_to_file_size_returns_full() {
    assert_eq!(bytes_range(range("-1000"), 1000).unwrap(), (0, 1000));
}

#[test]
fn range_suffix_range_of_one_byte() {
    assert_eq!(bytes_range(range("-1"), 1000).unwrap(), (999, 1000));
}

#[test]
fn range_zero_length_suffix_is_unsatisfiable() {
    assert!(bytes_range(range("-0"), 1000).is_err());
}

#[test]
fn range_leading_zeros_in_suffix_are_parsed() {
    assert_eq!(bytes_range(range("-00200"), 1000).unwrap(), (800, 1000));
    assert_eq!(bytes_range(range("-02000"), 1000).unwrap(), (0, 1000));
}

#[test]
fn range_full_file_range_returns_full() {
    assert_eq!(bytes_range(range("0-999"), 1000).unwrap(), (0, 1000));
}

#[test]
fn range_multi_range_first_satisfiable_wins() {
    assert_eq!(bytes_range(range("0-9,50-59"), 100).unwrap(), (0, 10));
}

#[test]
fn range_multi_range_with_oversized_suffix_picks_first_valid() {
    assert_eq!(bytes_range(range("10-19,-99999"), 100).unwrap(), (10, 20));
}

#[test]
fn range_range_at_u64_boundary_file_size() {
    assert_eq!(bytes_range(range("0-"), u64::MAX).unwrap(), (0, u64::MAX));
}

#[test]
fn range_open_on_both_sides_is_an_error() {
    assert!(bytes_range(range("-"), 10).is_err());
    assert!(bytes_range(range("-, 0-5"), 10).is_err());
}

#[test]
fn satisfiable_ranges_resolve_suffixes_and_keep_the_rest() {
    let r = range("0-4, -3, -20, x-1, -, 7-").unwrap();
    assert_eq!(
        r.satisfiable_ranges(10),
        vec![
            (Bound::Included(0), Bound::Included(4)),
            (Bound::Included(7), Bound::Unbounded),
            (Bound::Unbounded, Bound::Unbounded),
            (Bound::Included(7), Bound::Unbounded),
        ]
    );
}

#[test]
fn range_header_must_be_ascii_text_with_the_bytes_unit() {
    assert!(Range::decode("bytes=0-1").is_some());
    assert!(Range::decode("bytes=0-1é").is_none());
    assert!(Range::decode("items=0-1").is_none());
    assert!(Range::decode("bytes=\u{1}").is_none());
}
