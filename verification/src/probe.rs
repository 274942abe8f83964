//! Telling whether bytes start an XFS volume.
//!
//! The XFS superblock stands at the very start of the device, and its first
//! four bytes are the ASCII text `XFSB`: the magic number `0x5846_5342`, which
//! XFS stores big-endian. The number is the reader crate's own, so that the
//! driver and the reader cannot disagree on it.

use vstd::prelude::*;

verus! {

/// Where the superblock starts.
pub const XFS_SUPER_OFFSET: usize = 0;

/// The first bytes of a superblock: `XFSB`.
pub open spec fn magic_bytes() -> Seq<u8> {
    seq![0x58u8, 0x46u8, 0x53u8, 0x42u8]
}

/// `bytes` hold an XFS superblock where one belongs, as far as its magic
/// tells.
pub open spec fn holds_superblock(bytes: Seq<u8>) -> bool {
    &&& bytes.len() >= XFS_SUPER_OFFSET + 4
    &&& bytes.subrange(XFS_SUPER_OFFSET as int, XFS_SUPER_OFFSET + 4) == magic_bytes()
}

/// `fs_xfs::superblock::XFS_SB_MAGIC`, the magic number as the reader crate
/// has it: `0x5846_5342`.
#[verifier::external_body]
fn reader_magic() -> (magic: u32)
    ensures
        magic == 0x5846_5342u32,
{
    fs_xfs::superblock::XFS_SB_MAGIC
}

/// The bytes of `n`, most significant first.
fn big_endian(n: u32) -> (bytes: [u8; 4])
    ensures
        n == bytes@[0] * 0x100_0000 + bytes@[1] * 0x1_0000 + bytes@[2] * 0x100 + bytes@[3],
{
    [
        (n / 0x100_0000) as u8,
        (n / 0x1_0000 % 0x100) as u8,
        (n / 0x100 % 0x100) as u8,
        (n % 0x100) as u8,
    ]
}

/// The magic number as it is stored on disk.
pub fn xfs_magic() -> (magic: [u8; 4])
    ensures
        magic@ == magic_bytes(),
{
    let magic = big_endian(reader_magic());
    assert(magic@ =~= magic_bytes());
    magic
}

/// Tells whether `bytes`, read from the start of a device, start an XFS
/// volume. Fewer than four bytes never do.
pub fn is_xfs(bytes: &[u8]) -> (found: bool)
    ensures
        found == holds_superblock(bytes@),
{
    if bytes.len() < XFS_SUPER_OFFSET + 4 {
        return false;
    }
    let magic = xfs_magic();
    let ghost start = bytes@.subrange(XFS_SUPER_OFFSET as int, XFS_SUPER_OFFSET + 4);
    let mut i: usize = 0;
    while i < 4
        invariant
            i <= 4,
            bytes.len() >= XFS_SUPER_OFFSET + 4,
            start == bytes@.subrange(XFS_SUPER_OFFSET as int, XFS_SUPER_OFFSET + 4),
            magic@ == magic_bytes(),
            forall|j: int| 0 <= j < i ==> start[j] == magic@[j],
        decreases 4 - i,
    {
        if bytes[XFS_SUPER_OFFSET + i] != magic[i] {
            assert(start[i as int] != magic_bytes()[i as int]);
            return false;
        }
        i = i + 1;
    }
    assert(start =~= magic_bytes());
    true
}

/// Only the first four bytes count: what follows them neither makes nor
/// breaks a superblock.
pub proof fn only_the_start_counts(start: Seq<u8>, rest: Seq<u8>, other: Seq<u8>)
    requires
        start.len() == 4,
    ensures
        holds_superblock(start + rest) == holds_superblock(start + other),
        holds_superblock(start + rest) <==> start == magic_bytes(),
{
    assert((start + rest).subrange(0, 4) =~= start);
    assert((start + other).subrange(0, 4) =~= start);
}

/// A superblock is told by the four bytes `X`, `F`, `S` and `B` at the very
/// start, and by nothing else.
pub proof fn superblock_starts_with_xfsb(bytes: Seq<u8>)
    ensures
        holds_superblock(bytes) <==> bytes.len() >= 4 && bytes[0] == 0x58 && bytes[1] == 0x46
            && bytes[2] == 0x53 && bytes[3] == 0x42,
{
    if bytes.len() >= 4 {
        let start = bytes.subrange(0, 4);
        assert(start[0] == bytes[0] && start[1] == bytes[1] && start[2] == bytes[2] && start[3]
            == bytes[3]);
        if bytes[0] == 0x58 && bytes[1] == 0x46 && bytes[2] == 0x53 && bytes[3] == 0x42 {
            assert(start =~= magic_bytes());
        }
    }
}

/// Flipping any of the first four bytes of a superblock makes it none, and no
/// other byte matters.
pub proof fn each_magic_byte_counts(bytes: Seq<u8>, i: int, b: u8)
    requires
        holds_superblock(bytes),
        0 <= i < bytes.len(),
        b != bytes[i],
    ensures
        holds_superblock(bytes.update(i, b)) <==> i >= 4,
{
    superblock_starts_with_xfsb(bytes);
    superblock_starts_with_xfsb(bytes.update(i, b));
}

} // verus!
