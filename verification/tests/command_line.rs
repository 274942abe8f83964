use std::time::{Duration, SystemTime};
use xfs_win_driver::clock::{elapsed_seconds, now_seconds};
use xfs_win_driver::options::{choose_dismount_policy, choose_write_mode, DismountPolicy, WriteMode};
use xfs_win_driver::report::{
    cat_refusal, info_report, info_report_with, listing_line, listing_report, DirRow, VolumeInfo,
};

fn volume(name: &str) -> VolumeInfo {
    VolumeInfo {
        magic: 0x5846_5342,
        block_size: 4096,
        blocks: 76800,
        inodes: 64,
        root_nid: 128,
        meta_blkaddr: 0,
        xattr_blkaddr: 18446744073709551615,
        volume_name: name.to_string(),
        feature_compat: 0,
        feature_incompat: 0xabc,
    }
}

#[test]
fn info_report_prints_each_field() {
    assert_eq!(
        info_report(&volume("data \"1\"")),
        vec![
            "magic            0x58465342",
            "block size       4096",
            "blocks           76800",
            "inodes           64",
            "root nid         128",
            "meta_blkaddr     0",
            "xattr_blkaddr    18446744073709551615",
            "volume name      \"data \\\"1\\\"\"",
            "feature_compat   0x00000000",
            "feature_incompat 0x00000ABC",
        ]
    );
}

#[test]
fn info_report_takes_the_quoted_name_as_it_is() {
    assert_eq!(
        info_report_with(&volume("ignored"), "<name>")[7],
        "volume name      <name>"
    );
}

#[test]
fn listing_lines_are_aligned() {
    assert_eq!(listing_line(1, 128, "a b"), "1          128 a b");
    assert_eq!(listing_line(255, 1234567890, "x"), "255 1234567890 x");
    assert_eq!(listing_line(0, 12345678901, ""), "0   12345678901 ");
}

#[test]
fn listing_report_keeps_order_and_decodes_names() {
    let rows = vec![
        DirRow {
            file_type: 2,
            nid: 5,
            name: b"dir".to_vec(),
        },
        DirRow {
            file_type: 1,
            nid: 7,
            name: vec![0x66, 0xff, 0x6f],
        },
        DirRow {
            file_type: 1,
            nid: 8,
            name: "\u{e9}".as_bytes().to_vec(),
        },
    ];
    assert_eq!(
        listing_report(&rows),
        vec![
            "2            5 dir",
            "1            7 f\u{fffd}o",
            "1            8 \u{e9}",
        ]
    );
    assert!(listing_report(&vec![]).is_empty());
}

#[test]
fn cat_refuses_what_is_not_a_regular_file() {
    assert_eq!(cat_refusal("/a", true), None);
    assert_eq!(
        cat_refusal("/dir", false),
        Some("/dir is not a regular file".to_string())
    );
}

#[test]
fn a_sidecar_wins_over_a_rebuild_and_discard_is_the_default() {
    assert_eq!(choose_dismount_policy(Some("s"), None), DismountPolicy::Sidecar("s"));
    assert_eq!(choose_dismount_policy(Some("s"), Some("r")), DismountPolicy::Sidecar("s"));
    assert_eq!(choose_dismount_policy(None, Some("r")), DismountPolicy::Rebuild("r"));
    assert_eq!(choose_dismount_policy::<&str>(None, None), DismountPolicy::Discard);
}

#[test]
fn mounts_are_writable_by_default() {
    assert_eq!(choose_write_mode(true), WriteMode::ReadOnly);
    assert_eq!(choose_write_mode(false), WriteMode::Writable);
}

#[test]
fn elapsed_time_is_counted_in_whole_seconds() {
    let epoch = SystemTime::UNIX_EPOCH;
    let later = epoch + Duration::from_millis(12_999);
    assert_eq!(elapsed_seconds(later.duration_since(epoch)), 12);
    assert_eq!(elapsed_seconds(epoch.duration_since(later)), 0);
    assert!(now_seconds() > 1_577_836_800);
}
