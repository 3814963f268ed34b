use static_web_server::content_coding::ContentCoding;

#[test]
fn to_static() {
    assert_eq!(ContentCoding::GZIP.to_static(), "gzip");
}

#[test]
fn to_string() {
    assert_eq!(ContentCoding::DEFLATE.to_string(), "deflate".to_string());
}

#[test]
fn from() {
    assert_eq!(ContentCoding::from("br"), ContentCoding::BROTLI);
    assert_eq!(ContentCoding::from("GZIP"), ContentCoding::GZIP);
    assert_eq!(ContentCoding::from("zstd"), ContentCoding::ZSTD);
    assert_eq!(ContentCoding::from("*"), ContentCoding::ANY);
    assert_eq!(ContentCoding::from("blah blah"), ContentCoding::IDENTITY);
}

#[test]
fn from_str() {
    assert_eq!(ContentCoding::from_str("br"), Ok(ContentCoding::BROTLI));
    assert_eq!(ContentCoding::from_str("zstd"), Ok(ContentCoding::ZSTD));
    assert_eq!(ContentCoding::from_str("*"), Ok(ContentCoding::ANY));
    assert_eq!(ContentCoding::from_str("blah blah"), Err(()));
}

#[test]
fn every_token_reads_back_as_its_coding() {
    for c in [
        ContentCoding::ANY,
        ContentCoding::BROTLI,
        ContentCoding::COMPRESS,
        ContentCoding::DEFLATE,
        ContentCoding::GZIP,
        ContentCoding::IDENTITY,
        ContentCoding::ZSTD,
    ] {
        assert_eq!(ContentCoding::from_str(c.to_static()), Ok(c));
    }
}
