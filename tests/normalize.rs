use cd_resolve::path::normalize_path;

#[test]
fn collapses_dots_and_separators() {
    assert_eq!(normalize_path("/tmp/./a//b/../c/"), "/tmp/a/c");
    assert_eq!(normalize_path("/tmp/ok"), "/tmp/ok");
}

#[test]
fn parent_of_root_is_root() {
    assert_eq!(normalize_path("/.."), "/");
    assert_eq!(normalize_path("/../a/.."), "/");
    assert_eq!(normalize_path("/"), "/");
}

#[test]
fn leading_double_slash_is_kept() {
    assert_eq!(normalize_path("//net/x"), "//net/x");
    assert_eq!(normalize_path("///x"), "/x");
}

#[test]
fn relative_paths_keep_leading_parents() {
    assert_eq!(normalize_path("../a/../../b"), "../../b");
    assert_eq!(normalize_path("a/.."), ".");
    assert_eq!(normalize_path(""), ".");
    assert_eq!(normalize_path("./"), ".");
}

#[test]
fn normalizing_twice_changes_nothing() {
    for p in ["/a/b/../c", "//x/./y", "../q/..", "/x/y/z/"] {
        let once = normalize_path(p);
        assert_eq!(normalize_path(&once), once);
    }
}

#[test]
fn non_ascii_components() {
    assert_eq!(normalize_path("/tmp/été/../日本"), "/tmp/日本");
}
