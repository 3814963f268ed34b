use static_web_server::content_coding::ContentCoding;
use static_web_server::quality_value::{
    accepts, accepts_markdown, join_values, preference_order, quality_items, quality_of,
    sorted_encodings, sorted_values, QualityMeta,
};

/// Reads each `q=` text as the server does: a float, scaled to thousandths.
fn weigh(item: &QualityMeta) -> (String, u16) {
    let readings: Vec<Option<u16>> = item
        .q_values
        .iter()
        .map(|t| t.parse::<f32>().ok().map(|p| (p * 1000_f32) as u16))
        .collect();
    (item.data.clone(), quality_of(&readings))
}

fn weighed(value: &str) -> Vec<(String, u16)> {
    quality_items(value).iter().map(weigh).collect()
}

fn sorted(value: &str) -> Vec<String> {
    sorted_values(&weighed(value))
}

#[test]
fn quality_value_multiple_qualities() {
    assert_eq!(sorted("gzip;q=1, br;q=0.8"), vec!["gzip", "br"]);
}

#[test]
fn quality_value_multiple_qualities_wrong_order() {
    assert_eq!(sorted("br;q=0.8, gzip;q=1.0"), vec!["gzip", "br"]);
}

#[test]
fn quality_value_multiple_values() {
    assert_eq!(sorted("deflate, gzip;q=1, br;q=0.8"), vec!["deflate", "gzip", "br"]);
}

#[test]
fn quality_value_multiple_values_whitespace() {
    assert_eq!(
        sorted("deflate  ;q=0.9, br;   q=0.001 ,gzip  ;  q=0.8"),
        vec!["deflate", "gzip", "br"]
    );
}

#[test]
fn quality_value_multiple_values_wrong_order() {
    assert_eq!(
        sorted("deflate, br;q=0.8, gzip;q=1, *;q=0.1"),
        vec!["deflate", "gzip", "br", "*"]
    );
}

#[test]
fn honor_client_preference_order() {
    assert_eq!(sorted("gzip, br;q=0.5, zstd;q=0"), vec!["gzip", "br", "zstd"]);
}

#[test]
fn from_static() {
    let items = weighed("deflate, zstd;q=0.7, gzip;q=1.0, br;q=0.9");
    assert_eq!(
        sorted_encodings(&items),
        vec![ContentCoding::DEFLATE, ContentCoding::GZIP, ContentCoding::BROTLI, ContentCoding::ZSTD]
    );
}

#[test]
fn items_keep_their_weight_texts() {
    let items = quality_items(" br ; q=0.5;q= x , gzip");
    assert_eq!(items.len(), 2);
    assert_eq!(items[0].data, "br");
    assert_eq!(items[0].q_values, vec!["0.5".to_string(), "x".to_string()]);
    assert_eq!(items[1].data, "gzip");
    assert!(items[1].q_values.is_empty());
    // The last weight that reads as a number wins; none weighs 1000.
    assert_eq!(quality_of(&[Some(500), None]), 500);
    assert_eq!(quality_of(&[Some(500), Some(7)]), 7);
    assert_eq!(quality_of(&[]), 1000);
}

#[test]
fn preference_order_is_a_stable_sort_by_weight() {
    assert_eq!(preference_order(&[500, 1000, 500, 1000, 0]), vec![1, 3, 0, 2, 4]);
    assert_eq!(preference_order(&[]), Vec::<usize>::new());
}

#[test]
fn joined_header_values() {
    assert_eq!(join_values(&[]), "");
    assert_eq!(join_values(&["gzip"]), "gzip");
    assert_eq!(join_values(&["gzip", "br;q=0.5"]), "gzip, br;q=0.5");
}

#[test]
fn accepts_markdown_explicit() {
    assert!(accepts_markdown("text/markdown"));
}

#[test]
fn accepts_markdown_with_quality() {
    assert!(accepts_markdown("text/html, text/markdown;q=0.9"));
}

#[test]
fn does_not_accept_markdown_wildcard() {
    assert!(!accepts_markdown("text/*"));
}

#[test]
fn does_not_accept_markdown_any() {
    assert!(!accepts_markdown("*/*"));
}

#[test]
fn does_not_accept_markdown_html() {
    assert!(!accepts_markdown("text/html, application/json"));
}

#[test]
fn accepts_ignores_ascii_case() {
    assert!(accepts("Text/HTML;q=0", "text/html"));
}
