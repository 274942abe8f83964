use xfs_win_driver::collate::{collate, Collation};
use xfs_win_driver::overlay::{Overlay, OverlayEntry, OverlayLookup};
use xfs_win_driver::path::normalize_path;

fn created(content: &[u8], mode: u16, mtime: u64) -> OverlayLookup {
    OverlayLookup::Hit(OverlayEntry::Created {
        content: content.to_vec(),
        mode,
        mtime,
    })
}

fn modified(content: &[u8], mode: u16, mtime: u64) -> OverlayLookup {
    OverlayLookup::Hit(OverlayEntry::Modified {
        content: content.to_vec(),
        mode,
        mtime,
    })
}

#[test]
fn every_spelling_finds_the_file() {
    let mut ov = Overlay::new();
    ov.create_file_at("\\foo\\bar", b"x".to_vec(), 0o100644, 5);
    for p in [
        "/foo/bar",
        "\\foo\\bar\\",
        "\\foo\\.\\bar",
        "foo/bar",
        "//foo\\\\bar//",
        "/foo/baz/../bar",
        "/../foo/bar/.",
    ] {
        assert_eq!(ov.lookup(p), created(b"x", 0o100644, 5), "{p}");
    }
    assert_eq!(ov.lookup("/foo"), OverlayLookup::Miss);
    assert_eq!(ov.lookup("/foo/ba"), OverlayLookup::Miss);
}

#[test]
fn normalizing_twice_changes_nothing() {
    for p in ["", "a", "\\a\\..\\..\\b/", "/a/b/../c/./d", "...", "/.../..", "\u{e9}\\\u{1f600}/x"] {
        let once = normalize_path(p);
        assert_eq!(normalize_path(&once), once);
    }
    assert_eq!(normalize_path("..."), "/...");
    assert_eq!(normalize_path("/a/.."), "/");
    assert_eq!(normalize_path("/a/b/."), "/a/b");
    assert_eq!(normalize_path("\u{e9}\\\u{1f600}/x"), "/\u{e9}/\u{1f600}/x");
}

#[test]
fn a_new_file_stays_new_when_written() {
    let mut ov = Overlay::new();
    ov.create_file_at("/n", b"1".to_vec(), 1, 10);
    ov.write_file_at("/n", b"22".to_vec(), 2, 20);
    assert_eq!(ov.lookup("/n"), created(b"22", 2, 20));
    ov.write_file_at("/m", b"3".to_vec(), 3, 30);
    ov.write_file_at("/m", b"44".to_vec(), 4, 40);
    assert_eq!(ov.lookup("/m"), modified(b"44", 4, 40));
    ov.delete("/n");
    ov.write_file_at("/n", b"5".to_vec(), 5, 50);
    assert_eq!(ov.lookup("/n"), modified(b"5", 5, 50));
    ov.create_dir_at("/d", 6, 60);
    ov.write_file_at("/d", b"7".to_vec(), 7, 70);
    assert_eq!(ov.lookup("/d"), modified(b"7", 7, 70));
}

#[test]
fn creating_lifts_a_tombstone() {
    let mut ov = Overlay::new();
    ov.delete("/a");
    ov.create_file_at("/a", b"x".to_vec(), 1, 2);
    assert_eq!(ov.lookup("/a"), created(b"x", 1, 2));
    assert_eq!(ov.changes_count(), 1);
}

#[test]
fn other_paths_are_left_alone() {
    let mut ov = Overlay::new();
    ov.create_file_at("/a", b"x".to_vec(), 1, 2);
    ov.write_file_at("/b", b"y".to_vec(), 3, 4);
    ov.delete("/c");
    ov.create_dir_at("/d", 5, 6);
    ov.rename("/a", "/e").expect("rename");
    assert_eq!(ov.lookup("/a"), OverlayLookup::Deleted);
    assert_eq!(ov.lookup("/b"), modified(b"y", 3, 4));
    assert_eq!(ov.lookup("/c"), OverlayLookup::Deleted);
    assert_eq!(
        ov.lookup("/d"),
        OverlayLookup::Hit(OverlayEntry::CreatedDir { mode: 5, mtime: 6 })
    );
    assert_eq!(ov.lookup("/e"), created(b"x", 1, 2));
    assert_eq!(ov.changes_count(), 5);
}

#[test]
fn rename_errors_tell_why_and_change_nothing() {
    let mut ov = Overlay::new();
    ov.delete("/gone");
    ov.create_file_at("/kept", b"k".to_vec(), 1, 1);
    let before = ov.snapshot();
    assert_eq!(
        ov.rename("/absent", "/kept"),
        Err("rename: source has no overlay entry; caller must stage source first")
    );
    assert_eq!(
        ov.rename("/gone", "/kept"),
        Err("rename: source is a tombstone")
    );
    assert_eq!(ov.snapshot(), before);
}

#[test]
fn rename_of_a_path_to_itself_needs_nothing_staged() {
    let mut ov = Overlay::new();
    assert_eq!(ov.rename("/absent", "\\absent\\"), Ok(()));
    assert_eq!(ov.changes_count(), 0);
    assert_eq!(ov.lookup("/absent"), OverlayLookup::Miss);
    ov.create_dir_at("/d", 1, 2);
    assert_eq!(ov.rename("/d", "/x/../d"), Ok(()));
    assert_eq!(
        ov.lookup("/d"),
        OverlayLookup::Hit(OverlayEntry::CreatedDir { mode: 1, mtime: 2 })
    );
}

#[test]
fn rename_of_a_tombstone_to_itself_is_refused() {
    let mut ov = Overlay::new();
    ov.delete("/x");
    assert_eq!(ov.rename("/x", "/x"), Err("rename: source is a tombstone"));
    assert_eq!(ov.rename("/x", "\\.\\x\\"), Err("rename: source is a tombstone"));
    assert_eq!(ov.lookup("/x"), OverlayLookup::Deleted);
    assert_eq!(ov.changes_count(), 1);
}

#[test]
fn rename_replaces_the_destination_and_goes_back() {
    let mut ov = Overlay::new();
    ov.write_file_at("/a", b"a".to_vec(), 1, 1);
    ov.create_file_at("/b", b"b".to_vec(), 2, 2);
    ov.rename("/a", "/b").expect("there");
    assert_eq!(ov.lookup("/b"), modified(b"a", 1, 1));
    ov.rename("/b", "/a").expect("back");
    assert_eq!(ov.lookup("/a"), modified(b"a", 1, 1));
    assert_eq!(ov.lookup("/b"), OverlayLookup::Deleted);
    assert_eq!(ov.changes_count(), 2);
}

#[test]
fn listing_of_the_root_and_of_a_directory() {
    let mut ov = Overlay::new();
    ov.delete("/");
    ov.create_dir_at("/d", 1, 1);
    ov.create_file_at("/d/y", b"".to_vec(), 1, 1);
    ov.create_file_at("/d/x", b"".to_vec(), 1, 1);
    ov.create_file_at("/d/e/z", b"".to_vec(), 1, 1);
    ov.create_file_at("/dd", b"".to_vec(), 1, 1);
    let names = |dir: &str| -> Vec<String> { ov.iter_dir(dir).into_iter().map(|p| p.0).collect() };
    assert_eq!(names("/"), vec!["d", "dd"]);
    assert_eq!(names("\\d\\"), vec!["x", "y"]);
    assert_eq!(names("/d/e"), vec!["z"]);
    assert!(names("/d/x").is_empty());
    assert!(names("/nowhere").is_empty());
    // A listed name leads back to its entry.
    for (name, entry) in ov.iter_dir("/d") {
        assert_eq!(ov.lookup(&format!("/d/{name}")), OverlayLookup::Hit(entry));
    }
}

#[test]
fn snapshot_is_in_the_order_of_strings() {
    let paths = ["/b/c", "/b", "/b.c", "/\u{10348}", "/\u{fffd}", "/\u{e9}", "/a", "/"];
    let mut ov = Overlay::new();
    for p in paths {
        ov.delete(p);
    }
    let mut expected: Vec<String> = paths.iter().map(|p| p.to_string()).collect();
    expected.sort();
    let keys: Vec<String> = ov.snapshot().into_iter().map(|p| p.0).collect();
    assert_eq!(keys, expected);
    assert_eq!(keys.len(), ov.changes_count());
}

#[test]
fn collate_orders_as_strings_do() {
    let words = ["", "a", "ab", "b", "/", "A", "\u{e9}", "\u{fffd}", "\u{10348}"];
    for a in words {
        for b in words {
            let expected = if a < b {
                Collation::Before
            } else if a == b {
                Collation::Same
            } else {
                Collation::After
            };
            assert_eq!(collate(a, b), expected, "{a} {b}");
        }
    }
}

#[test]
fn writes_are_stamped_with_the_time() {
    let mut ov = Overlay::default();
    ov.create_file("/a", b"x".to_vec(), 1);
    ov.write_file("/b", b"x".to_vec(), 1);
    ov.create_dir("/c", 1);
    // Well past 2020.
    for (_, entry) in ov.snapshot() {
        assert!(entry.mtime() > 1_577_836_800);
    }
}

#[test]
fn a_cleared_overlay_misses_everywhere() {
    let mut ov = Overlay::new();
    assert_eq!(ov.lookup("/a"), OverlayLookup::Miss);
    ov.create_file("/a", b"x".to_vec(), 1);
    ov.delete("/b");
    ov.clear();
    assert_eq!(ov.lookup("/a"), OverlayLookup::Miss);
    assert_eq!(ov.lookup("/b"), OverlayLookup::Miss);
    assert!(ov.snapshot().is_empty());
    assert!(ov.iter_dir("/").is_empty());
}
