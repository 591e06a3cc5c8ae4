use cd_resolve::cdpath::cdpath_candidates;

fn strings(v: &[&str]) -> Vec<String> {
    v.iter().map(|s| s.to_string()).collect()
}

#[test]
fn absolute_argument_is_its_own_candidate() {
    assert_eq!(cdpath_candidates("/tmp/x", "/home/u", &strings(&["/srv"])), strings(&["/tmp/x"]));
}

#[test]
fn explicit_relative_ignores_search_path() {
    assert_eq!(cdpath_candidates("./a", "/home/u", &strings(&["/srv"])), strings(&["/home/u/./a"]));
    assert_eq!(cdpath_candidates("..", "/home/u", &strings(&["/srv"])), strings(&["/home/u/.."]));
    assert_eq!(cdpath_candidates("../b", "/", &strings(&["/srv"])), strings(&["/../b"]));
}

#[test]
fn empty_search_path_uses_working_directory() {
    assert_eq!(cdpath_candidates("src", "/home/u", &Vec::new()), strings(&["/home/u/src"]));
    assert_eq!(cdpath_candidates("src", "/", &Vec::new()), strings(&["/src"]));
}

#[test]
fn search_path_entries_in_order() {
    let cdpath = strings(&["/srv/", ".", "", "proj"]);
    assert_eq!(
        cdpath_candidates("src", "/home/u", &cdpath),
        strings(&["/srv/src", "/home/u/src", "/home/u/src", "/home/u/proj/src"])
    );
}

#[test]
fn dotted_name_is_looked_up() {
    assert_eq!(cdpath_candidates(".config", "/h", &strings(&["/a"])), strings(&["/a/.config"]));
}
