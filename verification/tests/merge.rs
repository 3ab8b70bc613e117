use colorrs::merge::Merger;

fn names(list: &[&str]) -> Vec<String> {
    list.iter().map(|s| s.to_string()).collect()
}

#[test]
fn same_stem_with_other_extension_is_skipped() {
    let mut merger = Merger::new(names(&["foo.toml"]), names(&["foo.sh"]));
    merger.run_with(&Vec::new());
    assert_eq!(merger.outcome(), 0);
    assert_eq!(merger.skipped(), &names(&["foo.toml"]));
    assert!(merger.failed().is_empty());
    assert!(merger.installed().is_empty());
}

#[test]
fn same_name_is_skipped() {
    let mut merger = Merger::new(names(&["foo.toml", "bar"]), names(&["bar", "foo.toml"]));
    assert_eq!(merger.next_copy(), None);
    assert!(merger.is_finished());
    assert_eq!(merger.outcome(), 0);
    assert_eq!(merger.skipped(), &names(&["foo.toml", "bar"]));
}

#[test]
fn stem_without_extension_collides() {
    let mut merger = Merger::new(names(&["foo.toml", "bar"]), names(&["foo", "bar.sh"]));
    merger.run_with(&Vec::new());
    assert_eq!(merger.outcome(), 0);
}

#[test]
fn fresh_files_are_all_installed() {
    let files = names(&["a.toml", "b.sh", "c", ".d"]);
    let mut merger = Merger::new(files.clone(), Vec::new());
    merger.run_with(&Vec::new());
    assert_eq!(merger.outcome(), 4);
    assert_eq!(merger.installed(), files);
    assert!(merger.skipped().is_empty());
    assert!(merger.failed().is_empty());
}

#[test]
fn merging_again_installs_nothing() {
    let files = names(&["a.toml", "b.sh", "c"]);
    let mut first = Merger::new(files.clone(), names(&["z.toml"]));
    first.run_with(&Vec::new());
    assert_eq!(first.outcome(), 3);
    let mut left = names(&["z.toml"]);
    left.extend(first.installed());
    let mut second = Merger::new(files.clone(), left);
    second.run_with(&Vec::new());
    assert_eq!(second.outcome(), 0);
    assert_eq!(second.skipped(), &files);
    assert!(second.failed().is_empty());
}

#[test]
fn empty_source_installs_nothing() {
    let mut merger = Merger::new(Vec::new(), names(&["a"]));
    assert!(merger.is_finished());
    assert_eq!(merger.next_copy(), None);
    merger.run_with(&Vec::new());
    assert_eq!(merger.outcome(), 0);
}

#[test]
fn second_file_of_a_stem_is_skipped() {
    let mut merger = Merger::new(names(&["foo.toml", "foo.sh", "bar"]), Vec::new());
    merger.run_with(&Vec::new());
    assert_eq!(merger.outcome(), 2);
    assert_eq!(merger.installed(), names(&["foo.toml", "bar"]));
    assert_eq!(merger.skipped(), &names(&["foo.sh"]));
}

#[test]
fn failed_copy_is_not_counted_and_does_not_stop() {
    let mut merger = Merger::new(names(&["a.toml", "b.toml", "c.toml"]), Vec::new());
    merger.run_with(&names(&["b.toml"]));
    assert_eq!(merger.outcome(), 2);
    assert_eq!(merger.installed(), names(&["a.toml", "c.toml"]));
    assert_eq!(merger.failed(), &names(&["b.toml"]));
    assert!(merger.skipped().is_empty());
}

#[test]
fn failed_copy_leaves_the_stem_free() {
    let mut merger = Merger::new(names(&["a.toml", "a.sh"]), Vec::new());
    merger.run_with(&names(&["a.toml"]));
    assert_eq!(merger.installed(), names(&["a.sh"]));
    assert_eq!(merger.failed(), &names(&["a.toml"]));
}

#[test]
fn copies_are_asked_for_one_by_one() {
    let mut merger = Merger::new(names(&["a", "b.x", "c"]), names(&["b.y"]));
    assert_eq!(merger.awaited(), None);
    assert_eq!(merger.next_copy(), Some("a".to_string()));
    assert_eq!(merger.awaited(), Some("a".to_string()));
    assert_eq!(merger.next_copy(), Some("a".to_string()));
    merger.record(true);
    assert_eq!(merger.awaited(), None);
    assert_eq!(merger.outcome(), 1);
    assert_eq!(merger.next_copy(), Some("c".to_string()));
    assert_eq!(merger.skipped(), &names(&["b.x"]));
    assert!(!merger.is_finished());
    merger.record(false);
    assert!(merger.is_finished());
    assert_eq!(merger.next_copy(), None);
    assert_eq!(merger.outcome(), 1);
    assert_eq!(merger.failed(), &names(&["c"]));
}

#[test]
fn record_without_request_changes_nothing() {
    let mut merger = Merger::new(names(&["a"]), Vec::new());
    merger.record(true);
    assert_eq!(merger.outcome(), 0);
    assert!(!merger.is_finished());
    assert_eq!(merger.next_copy(), Some("a".to_string()));
}
