use modsnap::file_filter::FileFilter;
use modsnap::file_handler::CopyResult;
use modsnap::file_handler::RelPath;
use modsnap::file_handler::filter_copy_plan;
use modsnap::file_handler::filter_files;
use modsnap::file_handler::plan_dirs;
use modsnap::file_handler::rel_path_eq;
use modsnap::file_handler::str_ends_with;
use modsnap::file_handler::str_eq;
use modsnap::file_handler::top_level_plan;
use modsnap::file_handler::u32_to_dec_string;

fn rel(segments: &[&str]) -> RelPath {
    RelPath::new(segments.iter().map(|s| s.to_string()).collect())
}

fn segs(p: &RelPath) -> Vec<String> {
    p.segments.clone()
}

#[test]
fn minimal_directory_set() {
    // a/b/c.txt and a/b/d.txt need a/b; a/e.txt needs a independently, so
    // a stays even though it is an ancestor of a/b.
    let files = vec![rel(&["a", "b", "c.txt"]), rel(&["a", "b", "d.txt"]), rel(&["a", "e.txt"])];
    let dirs = plan_dirs(&files);
    assert_eq!(dirs.len(), 2);
    assert_eq!(segs(&dirs[0]), vec!["a".to_string(), "b".to_string()]);
    assert_eq!(segs(&dirs[1]), vec!["a".to_string()]);
}

#[test]
fn top_level_files_need_no_directories() {
    let files = vec![rel(&["one.txt"]), rel(&["two.txt"])];
    let dirs = plan_dirs(&files);
    assert!(dirs.is_empty());
}

#[test]
fn shared_parents_appear_once() {
    let files = vec![rel(&["a", "x.txt"]), rel(&["a", "y.txt"]), rel(&["a", "z.txt"])];
    let dirs = plan_dirs(&files);
    assert_eq!(dirs.len(), 1);
    assert_eq!(segs(&dirs[0]), vec!["a".to_string()]);
}

#[test]
fn filter_files_keeps_only_allowed() {
    let f = FileFilter::new(vec!["*.tmp".to_string()]).unwrap();
    let files = vec![rel(&["a", "x.tmp"]), rel(&["a", "y.rs"])];
    let kept = filter_files(&f, files);
    assert_eq!(kept.len(), 1);
    assert_eq!(segs(&kept[0]), vec!["a".to_string(), "y.rs".to_string()]);
}

#[test]
fn filter_copy_plan_combines_filter_and_dirs() {
    let f = FileFilter::new(vec!["*.tmp".to_string()]).unwrap();
    let files = vec![rel(&["a", "x.tmp"]), rel(&["a", "y.rs"]), rel(&["top.rs"])];
    let plan = filter_copy_plan(&f, files);
    assert_eq!(plan.files.len(), 2);
    assert_eq!(segs(&plan.files[0]), vec!["a".to_string(), "y.rs".to_string()]);
    assert_eq!(segs(&plan.files[1]), vec!["top.rs".to_string()]);
    assert_eq!(plan.dirs.len(), 1);
    assert_eq!(segs(&plan.dirs[0]), vec!["a".to_string()]);
    assert_eq!(plan.outcome(), CopyResult::Copied);
}

#[test]
fn plan_with_nothing_to_copy() {
    let f = FileFilter::new(vec!["*".to_string()]).unwrap();
    let files = vec![rel(&["x.tmp"])];
    let plan = filter_copy_plan(&f, files);
    assert!(plan.files.is_empty());
    assert_eq!(plan.outcome(), CopyResult::NoFileToCopy);
}

#[test]
fn top_level_plan_applies_suffix() {
    let f = FileFilter::new(vec![]).unwrap();
    let files = vec![rel(&["notes.txt"]), rel(&["image.png"])];
    let kept = top_level_plan(&f, files, &Some(".txt".to_string()));
    assert_eq!(kept.len(), 1);
    assert_eq!(segs(&kept[0]), vec!["notes.txt".to_string()]);
}

#[test]
fn top_level_plan_without_suffix_keeps_all_allowed() {
    let f = FileFilter::new(vec!["*.png".to_string()]).unwrap();
    let files = vec![rel(&["notes.txt"]), rel(&["image.png"])];
    let kept = top_level_plan(&f, files, &None);
    assert_eq!(kept.len(), 1);
    assert_eq!(segs(&kept[0]), vec!["notes.txt".to_string()]);
}

#[test]
fn path_rendering_joins_with_slashes() {
    let p = rel(&["a", "b", "c.txt"]);
    assert_eq!(p.to_path_string(), "a/b/c.txt".to_string());
    let single = rel(&["c.txt"]);
    assert_eq!(single.to_path_string(), "c.txt".to_string());
}

#[test]
fn parent_drops_last_segment() {
    let p = rel(&["a", "b", "c.txt"]);
    assert_eq!(segs(&p.parent()), vec!["a".to_string(), "b".to_string()]);
}

#[test]
fn rel_path_equality_is_by_segments() {
    assert!(rel_path_eq(&rel(&["a", "b"]), &rel(&["a", "b"])));
    assert!(!rel_path_eq(&rel(&["a", "b"]), &rel(&["a"])));
    assert!(!rel_path_eq(&rel(&["a", "b"]), &rel(&["a", "c"])));
}

#[test]
fn decimal_rendering() {
    assert_eq!(u32_to_dec_string(0), "0");
    assert_eq!(u32_to_dec_string(7), "7");
    assert_eq!(u32_to_dec_string(10), "10");
    assert_eq!(u32_to_dec_string(12345), "12345");
    assert_eq!(u32_to_dec_string(u32::MAX), "4294967295");
}

#[test]
fn string_helpers() {
    assert!(str_ends_with("archive.txt", ".txt"));
    assert!(!str_ends_with("archive.txt", ".png"));
    assert!(str_ends_with("x", ""));
    assert!(!str_ends_with("", ".txt"));
    assert!(str_eq("same", "same"));
    assert!(!str_eq("same", "sane"));
    assert!(!str_eq("same", "sam"));
}
