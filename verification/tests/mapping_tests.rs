use rswinthings::mapping::FolderMapping;
use rswinthings::reference::EntryReference;

fn reference(entry: u64, sequence: u16) -> EntryReference {
    EntryReference { entry, sequence }
}

/// The synthetic tree root(5) -> "dir1"(100) -> "dir2"(101) -> "file.txt"(102).
fn synthetic_tree() -> FolderMapping {
    let mut fm = FolderMapping::new();
    fm.add_mapping(reference(100, 1), "dir1".to_string(), reference(5, 5));
    fm.add_mapping(reference(101, 1), "dir2".to_string(), reference(100, 1));
    fm.add_mapping(reference(102, 1), "file.txt".to_string(), reference(101, 1));
    fm
}

#[test]
fn path_of_nested_directory() {
    let mut fm = synthetic_tree();
    let path = fm.enumerate_path(101, 1).unwrap();
    assert_eq!(path, "[root]/dir1/dir2");
}

#[test]
fn missing_ancestor_falls_back_to_unknown() {
    let mut fm = synthetic_tree();
    fm.remove_mapping(reference(100, 1));
    let path = fm.enumerate_path(102, 1).unwrap();
    assert_eq!(path, "[<unknown>]/dir2/file.txt");
}

#[test]
fn unknown_reference_resolves_to_sentinel() {
    let mut fm = synthetic_tree();
    let path = fm.enumerate_path(777, 9).unwrap();
    assert_eq!(path, "[<unknown>]");
}

#[test]
fn root_reference_resolves_to_root() {
    let mut fm = synthetic_tree();
    let path = fm.enumerate_path(5, 5).unwrap();
    assert_eq!(path, "[root]");
}

#[test]
fn sequence_number_distinguishes_reused_slots() {
    let mut fm = synthetic_tree();
    assert!(fm.contains_reference(&reference(101, 1)));
    assert!(!fm.contains_reference(&reference(101, 2)));
    let path = fm.enumerate_path(101, 2).unwrap();
    assert_eq!(path, "[<unknown>]");
}

#[test]
fn repeated_lookup_is_served_from_cache() {
    let mut fm = synthetic_tree();
    let first = fm.enumerate_path(101, 1).unwrap();
    let lookups_after_first = fm.mapping_lookups();
    assert!(lookups_after_first > 0);
    let second = fm.enumerate_path(101, 1).unwrap();
    assert_eq!(first, second);
    assert_eq!(fm.mapping_lookups(), lookups_after_first);
}

#[test]
fn mapping_change_evicts_the_cached_path() {
    let mut fm = synthetic_tree();
    let before = fm.enumerate_path(101, 1).unwrap();
    assert_eq!(before, "[root]/dir1/dir2");
    fm.add_mapping(reference(101, 1), "renamed".to_string(), reference(100, 1));
    let after = fm.enumerate_path(101, 1).unwrap();
    assert_eq!(after, "[root]/dir1/renamed");
}

#[test]
fn parent_cycle_fails_closed() {
    let mut fm = FolderMapping::new();
    fm.add_mapping(reference(100, 1), "dir1".to_string(), reference(101, 1));
    fm.add_mapping(reference(101, 1), "dir2".to_string(), reference(100, 1));
    let path = fm.enumerate_path(101, 1).unwrap();
    assert_eq!(path, "[<corrupt>]/dir1/dir2");
}
