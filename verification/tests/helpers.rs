use static_web_server::helpers::{
    adjust_canonicalization, get_valid_dirpath, read_file, read_text_default,
    IgnoredPath, PathKind,
};

#[test]
fn valid_dirpath_rejects_nonexistent() {
    let result = get_valid_dirpath("/this/path/does/not/exist/sws", PathKind::Missing);
    assert!(result.is_err());
}

#[test]
fn read_text_default_returns_empty_on_missing() {
    assert_eq!(read_text_default(None), "");
}

#[test]
fn read_file_errors_on_missing() {
    assert!(read_file("/no/such/sws_file.txt", None).is_err());
}

#[test]
fn valid_dirpath_accepts_a_directory_and_rejects_a_file() {
    assert_eq!(get_valid_dirpath("/tmp", PathKind::Dir), Ok("/tmp".to_string()));
    assert_eq!(
        get_valid_dirpath("/tmp/a.txt", PathKind::File),
        Err("path /tmp/a.txt is not a valid directory".to_string())
    );
    assert_eq!(
        get_valid_dirpath("/nope", PathKind::Missing),
        Err("path /nope was not found or inaccessible".to_string())
    );
}

#[test]
fn read_text_default_trims_and_replaces_invalid_utf8() {
    assert_eq!(read_text_default(Some(b"  hello world  \n".to_vec())), "hello world");
    assert_eq!(read_text_default(Some(vec![b'a', 0xff, b'b'])), "a\u{fffd}b");
}

#[test]
fn read_file_reads_utf8_and_rejects_other_bytes() {
    assert_eq!(
        read_file("/x.txt", Some(b"static-web-server".to_vec())),
        Ok("static-web-server".to_string())
    );
    assert_eq!(
        read_file("/x.bin", Some(vec![0xff, 0xfe])),
        Err("path at `/x.bin` was not valid utf-8".to_string())
    );
    assert_eq!(
        read_file("/x.txt", None),
        Err("failed to read file `/x.txt`".to_string())
    );
}

#[test]
fn adjust_canonicalization_strips_the_verbatim_prefix() {
    assert_eq!(adjust_canonicalization(r"\\?\C:\www"), r"C:\www");
    assert_eq!(adjust_canonicalization(r"C:\www"), r"C:\www");
}

#[test]
fn ignored_keys_are_dotted_paths() {
    let path = IgnoredPath::Entry {
        parent: Box::new(IgnoredPath::Element {
            parent: Box::new(IgnoredPath::Entry {
                parent: Box::new(IgnoredPath::Optional { parent: Box::new(IgnoredPath::Root) }),
                key: "advanced".to_string(),
            }),
            index: 2,
        }),
        key: "colour".to_string(),
    };
    let mut key = String::new();
    static_web_server::helpers::stringify(&mut key, &path);
    assert_eq!(key, "advanced.2.colour");
    let mut key = String::new();
    static_web_server::helpers::stringify(&mut key, &IgnoredPath::Root);
    assert_eq!(key, "");
}

#[test]
fn valid_dirpath_returns_pathbuf() {
    let result = get_valid_dirpath("/tmp", PathKind::Dir);
    assert!(result.is_ok());
    assert_eq!(result.unwrap(), "/tmp");
}

#[test]
fn valid_dirpath_rejects_file() {
    assert!(get_valid_dirpath("/tmp/sws_helpers_test_valid_dirpath.txt", PathKind::File).is_err());
}

#[test]
fn read_text_default_returns_trimmed_string() {
    assert_eq!(read_text_default(Some(b"  hello world  \n".to_vec())), "hello world");
}

#[test]
fn read_file_returns_utf8_string() {
    assert_eq!(read_file("/tmp/x.txt", Some(b"static-web-server".to_vec())).unwrap(), "static-web-server");
}

#[test]
fn read_file_errors_on_non_utf8() {
    assert!(read_file("/tmp/x.bin", Some(b"\xff\xfe".to_vec())).is_err());
}

#[test]
fn read_text_default_decodes_valid_utf8_unchanged() {
    assert_eq!(read_text_default(Some("\t café ñ \r\n".as_bytes().to_vec())), "café ñ");
}
