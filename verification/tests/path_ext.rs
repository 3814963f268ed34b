use static_web_server::path_ext::PathExt;

#[test]
fn hidden_paths_have_a_dot_component() {
    assert!("/www/.git/config".is_hidden());
    assert!(".env".is_hidden());
    assert!("/a/..b".is_hidden());
    assert!("/a/b/.hidden/".is_hidden());
}

#[test]
fn dot_and_dot_dot_are_not_hidden() {
    assert!(!"/www/./index.html".is_hidden());
    assert!(!"../www/index.html".is_hidden());
    assert!(!"/www/a.b/c".is_hidden());
    assert!(!"".is_hidden());
    assert!(!"/".is_hidden());
}
