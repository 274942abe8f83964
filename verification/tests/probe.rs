use xfs_win_driver::probe::{is_xfs, xfs_magic, XFS_SUPER_OFFSET};

const TEST_BUF_LEN: usize = 1100;

#[test]
fn matches_magic_at_super_offset() {
    let mut buf = vec![0u8; TEST_BUF_LEN];
    buf[XFS_SUPER_OFFSET..XFS_SUPER_OFFSET + 4].copy_from_slice(&xfs_magic());
    assert!(is_xfs(&buf));
}

/// Written out literally, so that a wrong constant in the reader crate fails
/// here.
#[test]
fn the_magic_is_the_ascii_xfsb() {
    assert_eq!(&xfs_magic(), b"XFSB");
}

#[test]
fn the_superblock_is_at_the_start_of_the_device() {
    assert_eq!(XFS_SUPER_OFFSET, 0);
    let mut buf = vec![0u8; TEST_BUF_LEN];
    buf[1024..1028].copy_from_slice(&xfs_magic());
    assert!(
        !is_xfs(&buf),
        "magic at 1024 is EROFS's layout, not XFS's — this must not match"
    );
}

#[test]
fn rejects_a_buffer_that_is_too_short() {
    assert!(!is_xfs(&[]));
    assert!(!is_xfs(&xfs_magic()[..3]));
}

#[test]
fn rejects_a_zeroed_buffer() {
    assert!(!is_xfs(&vec![0u8; TEST_BUF_LEN]));
}

#[test]
fn accepts_four_bytes_and_looks_no_further() {
    assert!(is_xfs(b"XFSB"));
    assert!(is_xfs(b"XFSB and anything behind it"));
    assert!(!is_xfs(b"BSFX"));
    assert!(!is_xfs(b"XFSA"));
    assert!(!is_xfs(b" XFSB"));
}
