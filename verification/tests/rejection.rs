use static_web_server::filters::{has_accept_encoding, FilterRejection};
use static_web_server::rejection::{handle_rejection, RejectionKind};

#[test]
fn rejections_get_their_status_and_page() {
    assert_eq!(handle_rejection(RejectionKind::NotFound, "<h1>gone</h1>", ""), (404, "<h1>gone</h1>".to_string()));
    assert_eq!(
        handle_rejection(RejectionKind::NotFound, "", ""),
        (404, "<html><head><title>404 Not Found</title></head><body><center><h1>404 Not Found</h1></center></body></html>".to_string())
    );
    assert_eq!(handle_rejection(RejectionKind::Other, "", "<h1>oops</h1>"), (500, "<h1>oops</h1>".to_string()));
    let (code, page) = handle_rejection(RejectionKind::MethodNotAllowed, "x", "y");
    assert_eq!(code, 405);
    assert!(page.contains("<title>405 Method Not Allowed</title>"));
    assert_eq!(handle_rejection(RejectionKind::CorsForbidden, "", "").0, 403);
    assert_eq!(handle_rejection(RejectionKind::UnsupportedMediaType, "", "").0, 415);
    assert_eq!(handle_rejection(RejectionKind::BodyDeserialize, "", "").0, 400);
}

#[test]
fn accept_encoding_filter() {
    assert_eq!(has_accept_encoding(Some("gzip, br"), "gzip"), Ok(()));
    assert_eq!(has_accept_encoding(Some("br"), "gzip"), Err(FilterRejection::InvalidHeader));
    assert_eq!(has_accept_encoding(None, "gzip"), Err(FilterRejection::MissingHeader));
}
