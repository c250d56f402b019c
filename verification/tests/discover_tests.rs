use px::ancestors_of;
use px::find_nearest;

#[test]
fn ancestors_run_from_the_directory_to_the_root() {
    let dirs = ancestors_of("/a/b/c");
    assert_eq!(dirs, vec!["/a/b/c", "/a/b", "/a", "/"]);
}

#[test]
fn ancestors_of_the_root_is_the_root() {
    assert_eq!(ancestors_of("/"), vec!["/"]);
}

#[test]
fn ancestors_of_a_relative_path_end_empty() {
    assert_eq!(ancestors_of("a/b"), vec!["a/b", "a", ""]);
}

#[test]
fn nearest_directory_wins_over_an_ancestor() {
    let dirs = ancestors_of("/a/b/c");
    let present = vec!["/a/b/c".to_string(), "/a".to_string()];
    assert_eq!(find_nearest(&dirs, &present), Some(0));
    assert_eq!(dirs[0], "/a/b/c");
}

#[test]
fn only_an_ancestor_present_is_still_found() {
    let dirs = ancestors_of("/a/b/c");
    let present = vec!["/a".to_string()];
    assert_eq!(find_nearest(&dirs, &present), Some(2));
}

#[test]
fn nothing_present_finds_nothing() {
    let dirs = ancestors_of("/a/b/c");
    let present: Vec<String> = Vec::new();
    assert_eq!(find_nearest(&dirs, &present), None);
}
