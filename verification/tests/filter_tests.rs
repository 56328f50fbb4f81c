use modsnap::file_filter::FileFilter;

fn filter_of(patterns: &[&str]) -> FileFilter {
    FileFilter::new(patterns.iter().map(|p| p.to_string()).collect()).unwrap()
}

#[test]
fn empty_pattern_list_allows_everything() {
    let f = filter_of(&[]);
    assert!(f.allow_file("anything.txt"));
    assert!(f.allow_file("deep/nested/path.bin"));
}

#[test]
fn ignore_pattern_disallows_match() {
    let f = filter_of(&["*.tmp"]);
    assert!(!f.allow_file("scratch.tmp"));
    assert!(f.allow_file("kept.rs"));
}

#[test]
fn path_matching_neither_set_is_allowed() {
    let f = filter_of(&["*.tmp", "!keep.tmp"]);
    assert!(f.allow_file("plain.txt"));
}

#[test]
fn path_matching_only_ignore_is_disallowed() {
    let f = filter_of(&["*.tmp", "!keep.tmp"]);
    assert!(!f.allow_file("other.tmp"));
}

#[test]
fn path_matching_both_sets_is_allowed() {
    // keep.tmp matches the ignore pattern *.tmp and the inclusion pattern
    // keep.tmp: the inclusion wins.
    let f = filter_of(&["*.tmp", "!keep.tmp"]);
    assert!(f.allow_file("keep.tmp"));
}

#[test]
fn every_leading_marker_is_stripped() {
    let f = filter_of(&["*.tmp", "!!keep.tmp"]);
    assert!(f.allow_file("keep.tmp"));
    assert!(!f.allow_file("other.tmp"));
}

#[test]
fn invalid_glob_fails_construction() {
    let r = FileFilter::new(vec!["[".to_string()]);
    assert!(r.is_err());
}

#[test]
fn invalid_inclusion_glob_fails_construction() {
    let r = FileFilter::new(vec!["!([".to_string()]);
    assert!(r.is_err());
}

#[test]
fn nested_paths_match_globs() {
    let f = filter_of(&["target/*"]);
    assert!(!f.allow_file("target/debug"));
    assert!(f.allow_file("src/lib.rs"));
}
