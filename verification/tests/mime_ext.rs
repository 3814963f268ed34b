use static_web_server::mime_ext::{content_type_for, MimeExt, MimeType};

const TEXT_MIME_TYPES: [&str; 9] = [
    "application/csv",
    "application/graphql",
    "application/javascript",
    "application/json",
    "application/rtf",
    "application/sql",
    "application/x-yaml",
    "application/xml",
    "application/yaml",
];

const ADDITIONAL_COMPRESSIBLE_TYPES: [&str; 5] = [
    "application/wasm",
    "application/font-sfnt",
    "application/vnd.ms-fontobject",
    "image/x-icon",
    "image/vnd.microsoft.icon",
];

fn mime(s: &str) -> MimeType {
    MimeType::parse(s).unwrap()
}

#[test]
fn test_is_text() {
    for ext in TEXT_MIME_TYPES.iter() {
        assert!(mime(ext).is_text(), "'{ext}' should be considered text");
    }
    const OTHER_TEXT_TYPES: [&str; 7] = [
        "application/problem+json",
        "application/problem+xml",
        "application/vnd.api+json",
        "application/vnd.api+xml",
        "image/svg+xml",
        "text/calendar",
        "text/csv",
    ];
    for ext in OTHER_TEXT_TYPES.iter() {
        assert!(mime(ext).is_text(), "'{ext}' should be considered text due to suffix");
    }
}

#[test]
fn test_is_not_text() {
    const NON_TEXT_TYPES: [&str; 5] = [
        "application/font-woff2",
        "application/octet-stream",
        "application/wasm",
        "font/ttf",
        "image/png",
    ];
    for ext in NON_TEXT_TYPES.iter() {
        assert!(!mime(ext).is_text(), "'{}' should not be considered text", ext);
    }
}

#[test]
fn test_is_compressible() {
    for ext in TEXT_MIME_TYPES.iter() {
        assert!(mime(ext).is_compressible(), "'{ext}' should be considered compressible");
    }
    for ext in ADDITIONAL_COMPRESSIBLE_TYPES.iter() {
        assert!(mime(ext).is_compressible(), "'{ext}' should be considered compressible");
    }
    assert!(mime("font/ttf").is_compressible());
}

#[test]
fn test_is_not_compressible() {
    const NON_COMPRESSIBLE_TYPES: [&str; 8] = [
        "application/font-woff2",
        "application/gzip",
        "application/octet-stream",
        "application/pdf",
        "application/zip",
        "image/jpeg",
        "image/png",
        "font/woff2",
    ];
    for ext in NON_COMPRESSIBLE_TYPES.iter() {
        assert!(!mime(ext).is_compressible(), "'{ext}' should not be compressible");
    }
}

#[test]
fn test_is_text_only() {
    const TEXT_ONLY_TYPES: [&str; 7] = [
        "text/plain",
        "text/csv",
        "text/calendar",
        "text/css",
        "text/html",
        "text/markdown",
        "text/plain; boundary=x; charset=utf-8",
    ];
    for ext in TEXT_ONLY_TYPES.iter() {
        assert!(mime(ext).is_text_only(), "'{ext}' should be considered text-only");
    }
}

#[test]
fn test_is_not_text_only() {
    const NON_TEXT_ONLY_TYPES: [&str; 4] = [
        "application/json",
        "application/problem+json",
        "application/xml",
        "image/svg+xml",
    ];
    for ext in NON_TEXT_ONLY_TYPES.iter() {
        assert!(!mime(ext).is_text_only(), "'{ext}' should not be considered text-only");
    }
}

#[test]
fn contains_text_only_needs_a_listed_text_type() {
    assert!(mime("text/html; charset=utf-8").contains_text_only(&["text/html", "text/css"]));
    assert!(!mime("text/markdown").contains_text_only(&["text/html"]));
    assert!(!mime("application/json").contains_text_only(&["application/json"]));
}

#[test]
fn content_types_follow_the_extension() {
    assert_eq!(content_type_for("/www/index.html"), "text/html");
    assert_eq!(content_type_for("/www/style.css"), "text/css");
    assert_eq!(content_type_for("/www/data"), "application/octet-stream");
    assert_eq!(content_type_for("/www/.hidden"), "application/octet-stream");
    assert_eq!(content_type_for("/www/archive.unknownext"), "application/octet-stream");
}
