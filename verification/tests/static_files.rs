use stress::static_serve::resolve_static;

#[test]
fn root_path_resolves_to_index_html() {
    assert_eq!(resolve_static("./public", "/").unwrap(), "./public/index.html");
}

#[test]
fn plain_paths_resolve_under_the_root() {
    assert_eq!(resolve_static("./public", "/css/site.css").unwrap(), "./public/css/site.css");
    assert_eq!(resolve_static("./public", "page.html").unwrap(), "./public/page.html");
    assert_eq!(resolve_static("assets", "/a/b/c.png").unwrap(), "assets/a/b/c.png");
}

#[test]
fn traversal_components_are_rejected() {
    assert!(resolve_static("./public", "/../secret.txt").is_none());
    assert!(resolve_static("./public", "/a/../../etc/passwd").is_none());
    assert!(resolve_static("./public", "..").is_none());
    assert!(resolve_static("./public", "/a/..").is_none());
}

#[test]
fn dotted_names_that_are_not_traversal_pass() {
    assert_eq!(resolve_static("./public", "/..a/file").unwrap(), "./public/..a/file");
    assert_eq!(resolve_static("./public", "/a.b/c..d").unwrap(), "./public/a.b/c..d");
}
