use xfs_win_driver::overlay::{normalize_path, Overlay, OverlayEntry, OverlayLookup};

#[test]
fn created_file_lookup_returns_content() {
    let mut ov = Overlay::new();
    ov.create_file("/hello.txt", b"hi\n".to_vec(), 0o100644);
    match ov.lookup("/hello.txt") {
        OverlayLookup::Hit(OverlayEntry::Created { content, mode, .. }) => {
            assert_eq!(content, b"hi\n".to_vec());
            assert_eq!(mode, 0o100644);
        }
        other => panic!("expected Hit(Created), got {other:?}"),
    }
}

#[test]
fn modified_file_overrides_underlay() {
    let mut ov = Overlay::new();
    ov.write_file("/a", b"new".to_vec(), 0o100644);
    match ov.lookup("/a") {
        OverlayLookup::Hit(OverlayEntry::Modified { content, .. }) => {
            assert_eq!(content, b"new".to_vec());
        }
        other => panic!("expected Hit(Modified), got {other:?}"),
    }
}

#[test]
fn deleted_path_hides_underlay() {
    let mut ov = Overlay::new();
    ov.delete("/gone");
    assert!(matches!(ov.lookup("/gone"), OverlayLookup::Deleted));
}

#[test]
fn iter_dir_merges_overlay_and_underlay() {
    let mut ov = Overlay::new();
    ov.create_file("/dir/new.txt", b"x".to_vec(), 0o100644);
    ov.create_dir("/dir/sub", 0o040755);
    ov.create_file("/dir/sub/inner.txt", b"y".to_vec(), 0o100644);
    let mut entries = ov.iter_dir("/dir");
    entries.sort_by(|a, b| a.0.cmp(&b.0));
    let names: Vec<&str> = entries.iter().map(|(n, _)| n.as_str()).collect();
    // Direct children only: nothing from inside sub.
    assert_eq!(names, vec!["new.txt", "sub"]);
}

#[test]
fn iter_dir_hides_deleted() {
    let mut ov = Overlay::new();
    ov.delete("/dir/old.txt");
    let entries = ov.iter_dir("/dir");
    // The tombstone is listed, so that the caller can filter the name out of
    // the image's listing.
    assert_eq!(entries.len(), 1);
    assert!(entries[0].1.is_deleted());
}

#[test]
fn rename_moves_overlay_state() {
    let mut ov = Overlay::new();
    ov.create_file("/from.txt", b"hello".to_vec(), 0o100644);
    ov.rename("/from.txt", "/to.txt").expect("rename");
    assert!(matches!(ov.lookup("/from.txt"), OverlayLookup::Deleted));
    match ov.lookup("/to.txt") {
        OverlayLookup::Hit(OverlayEntry::Created { content, .. }) => {
            assert_eq!(content, b"hello".to_vec());
        }
        other => panic!("expected Hit(Created) at /to.txt, got {other:?}"),
    }
}

#[test]
fn rename_of_missing_source_errors() {
    let mut ov = Overlay::new();
    let err = ov.rename("/nope", "/other");
    assert!(err.is_err(), "rename on overlay-absent source must error");
}

#[test]
fn rename_same_path_is_noop() {
    let mut ov = Overlay::new();
    ov.create_file("/a", b"x".to_vec(), 0o100644);
    ov.rename("/a", "/a").expect("self-rename");
    match ov.lookup("/a") {
        OverlayLookup::Hit(OverlayEntry::Created { .. }) => {}
        other => panic!("expected /a to still be Created, got {other:?}"),
    }
}

#[test]
fn path_normalization_dot_dotdot_handled() {
    assert_eq!(normalize_path("/foo/bar"), "/foo/bar");
    assert_eq!(normalize_path("/foo//bar"), "/foo/bar");
    assert_eq!(normalize_path("/foo/./bar"), "/foo/bar");
    assert_eq!(normalize_path("/foo/baz/../bar"), "/foo/bar");
    assert_eq!(normalize_path("\\foo\\bar"), "/foo/bar");
    assert_eq!(normalize_path("foo/bar"), "/foo/bar");
    assert_eq!(normalize_path(""), "/");
    assert_eq!(normalize_path("/"), "/");
    assert_eq!(normalize_path("/.."), "/");
    // Reaching above the root is clamped.
    assert_eq!(normalize_path("/../../etc"), "/etc");
}

#[test]
fn nested_dir_create_then_lookup_subfile() {
    let mut ov = Overlay::new();
    ov.create_dir("/proj", 0o040755);
    ov.create_dir("/proj/src", 0o040755);
    ov.create_file("/proj/src/main.rs", b"fn main(){}".to_vec(), 0o100644);
    match ov.lookup("/proj/src/main.rs") {
        OverlayLookup::Hit(OverlayEntry::Created { content, .. }) => {
            assert_eq!(content, b"fn main(){}".to_vec());
        }
        other => panic!("unexpected lookup: {other:?}"),
    }
    assert!(matches!(
        ov.lookup("/proj"),
        OverlayLookup::Hit(OverlayEntry::CreatedDir { .. })
    ));
    assert!(matches!(
        ov.lookup("/proj/src"),
        OverlayLookup::Hit(OverlayEntry::CreatedDir { .. })
    ));
    let listed = ov.iter_dir("/proj/src");
    assert_eq!(listed.len(), 1);
    assert_eq!(listed[0].0, "main.rs");
}

#[test]
fn changes_count_tracks_writes_and_deletes() {
    let mut ov = Overlay::new();
    assert_eq!(ov.changes_count(), 0);
    ov.create_file("/a", b"x".to_vec(), 0o100644);
    assert_eq!(ov.changes_count(), 1);
    ov.delete("/a");
    // The tombstone takes the place of the file.
    assert_eq!(ov.changes_count(), 1);
    ov.delete("/b");
    assert_eq!(ov.changes_count(), 2);
}

#[test]
fn clear_resets_all_state() {
    let mut ov = Overlay::new();
    ov.create_file("/a", b"x".to_vec(), 0o100644);
    ov.delete("/b");
    ov.create_dir("/c", 0o040755);
    assert_eq!(ov.changes_count(), 3);
    ov.clear();
    assert_eq!(ov.changes_count(), 0);
    assert!(matches!(ov.lookup("/a"), OverlayLookup::Miss));
}

#[test]
fn snapshot_returns_sorted_entries() {
    let mut ov = Overlay::new();
    ov.create_file("/b", b"2".to_vec(), 0o100644);
    ov.create_file("/a", b"1".to_vec(), 0o100644);
    ov.create_file("/c", b"3".to_vec(), 0o100644);
    let snap = ov.snapshot();
    let keys: Vec<&str> = snap.iter().map(|(k, _)| k.as_str()).collect();
    assert_eq!(keys, vec!["/a", "/b", "/c"]);
}

#[test]
fn overlay_entry_helpers() {
    let c = OverlayEntry::Created {
        content: vec![1, 2, 3],
        mode: 0o100644,
        mtime: 42,
    };
    assert_eq!(c.content(), Some(&[1u8, 2, 3][..]));
    assert_eq!(c.mode(), 0o100644);
    assert_eq!(c.mtime(), 42);
    assert!(!c.is_dir());
    assert!(!c.is_deleted());

    let d = OverlayEntry::CreatedDir {
        mode: 0o040755,
        mtime: 7,
    };
    assert!(d.is_dir());
    assert_eq!(d.content(), None);

    let t = OverlayEntry::Deleted;
    assert!(t.is_deleted());
    assert_eq!(t.content(), None);
    assert_eq!(t.mode(), 0);
    assert_eq!(t.mtime(), 0);
}
