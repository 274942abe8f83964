//! What can be staged at a path.

use vstd::prelude::*;

verus! {

/// What is staged at one path. Each variant carries the full bytes and
/// metadata, so that a read of a staged path needs nothing else.
#[derive(Debug, PartialEq, Eq)]
pub enum OverlayEntry {
    /// A file that exists in the overlay only.
    Created { content: Vec<u8>, mode: u16, mtime: u64 },
    /// A file of the image with new content. The content is always the full
    /// content after the change; the image keeps its own.
    Modified { content: Vec<u8>, mode: u16, mtime: u64 },
    /// The path is gone, even if the image still has a file there.
    Deleted,
    /// A directory that exists in the overlay only.
    CreatedDir { mode: u16, mtime: u64 },
}

/// An entry as a mathematical value.
pub enum EntryView {
    Created { content: Seq<u8>, mode: u16, mtime: u64 },
    Modified { content: Seq<u8>, mode: u16, mtime: u64 },
    Deleted,
    CreatedDir { mode: u16, mtime: u64 },
}

impl View for OverlayEntry {
    type V = EntryView;

    open spec fn view(&self) -> EntryView {
        match *self {
            OverlayEntry::Created { content, mode, mtime } => EntryView::Created {
                content: content@,
                mode,
                mtime,
            },
            OverlayEntry::Modified { content, mode, mtime } => EntryView::Modified {
                content: content@,
                mode,
                mtime,
            },
            OverlayEntry::Deleted => EntryView::Deleted,
            OverlayEntry::CreatedDir { mode, mtime } => EntryView::CreatedDir { mode, mtime },
        }
    }
}

impl EntryView {
    /// The bytes of a file; directories and tombstones have none.
    pub open spec fn content(self) -> Option<Seq<u8>> {
        match self {
            EntryView::Created { content, .. } => Some(content),
            EntryView::Modified { content, .. } => Some(content),
            EntryView::Deleted => None,
            EntryView::CreatedDir { .. } => None,
        }
    }

    /// The mode bits; 0 for tombstones.
    pub open spec fn mode(self) -> u16 {
        match self {
            EntryView::Created { mode, .. } => mode,
            EntryView::Modified { mode, .. } => mode,
            EntryView::Deleted => 0,
            EntryView::CreatedDir { mode, .. } => mode,
        }
    }

    /// The time of the last write; 0 for tombstones.
    pub open spec fn mtime(self) -> u64 {
        match self {
            EntryView::Created { mtime, .. } => mtime,
            EntryView::Modified { mtime, .. } => mtime,
            EntryView::Deleted => 0,
            EntryView::CreatedDir { mtime, .. } => mtime,
        }
    }
}

impl Clone for OverlayEntry {
    fn clone(&self) -> (copy: OverlayEntry)
        ensures
            copy@ == self@,
    {
        match self {
            OverlayEntry::Created { content, mode, mtime } => {
                let bytes = content.clone();
                assert(bytes@ =~= content@);
                OverlayEntry::Created { content: bytes, mode: *mode, mtime: *mtime }
            },
            OverlayEntry::Modified { content, mode, mtime } => {
                let bytes = content.clone();
                assert(bytes@ =~= content@);
                OverlayEntry::Modified { content: bytes, mode: *mode, mtime: *mtime }
            },
            OverlayEntry::Deleted => OverlayEntry::Deleted,
            OverlayEntry::CreatedDir { mode, mtime } => {
                OverlayEntry::CreatedDir { mode: *mode, mtime: *mtime }
            },
        }
    }
}

impl OverlayEntry {
    /// Tells directories from files and tombstones.
    pub fn is_dir(&self) -> (r: bool)
        ensures
            r == (self@ is CreatedDir),
            r == (*self is CreatedDir),
    {
        matches!(self, OverlayEntry::CreatedDir { .. })
    }

    /// Tells tombstones from files and directories.
    pub fn is_deleted(&self) -> (r: bool)
        ensures
            r == (self@ is Deleted),
            r == (*self is Deleted),
    {
        matches!(self, OverlayEntry::Deleted)
    }

    /// The bytes of a file. Directories and tombstones have none.
    pub fn content(&self) -> (bytes: Option<&[u8]>)
        ensures
            bytes is Some <==> self@.content() is Some,
            bytes matches Some(b) ==> Some(b@) == self@.content(),
            match *self {
                OverlayEntry::Created { content, .. } => bytes is Some && bytes->0@ == content@,
                OverlayEntry::Modified { content, .. } => bytes is Some && bytes->0@ == content@,
                OverlayEntry::Deleted => bytes is None,
                OverlayEntry::CreatedDir { .. } => bytes is None,
            },
    {
        match self {
            OverlayEntry::Created { content, .. } | OverlayEntry::Modified { content, .. } => {
                Some(content.as_slice())
            },
            OverlayEntry::Deleted | OverlayEntry::CreatedDir { .. } => None,
        }
    }

    /// The mode bits in the style of Linux, with the file type in the high
    /// nibble. Tombstones report 0.
    pub fn mode(&self) -> (mode: u16)
        ensures
            mode == self@.mode(),
            match *self {
                OverlayEntry::Created { mode: own, .. } => mode == own,
                OverlayEntry::Modified { mode: own, .. } => mode == own,
                OverlayEntry::Deleted => mode == 0,
                OverlayEntry::CreatedDir { mode: own, .. } => mode == own,
            },
    {
        match self {
            OverlayEntry::Created { mode, .. }
            | OverlayEntry::Modified { mode, .. }
            | OverlayEntry::CreatedDir { mode, .. } => *mode,
            OverlayEntry::Deleted => 0,
        }
    }

    /// The time of the last write in seconds since 1970. Tombstones report 0.
    pub fn mtime(&self) -> (mtime: u64)
        ensures
            mtime == self@.mtime(),
            match *self {
                OverlayEntry::Created { mtime: own, .. } => mtime == own,
                OverlayEntry::Modified { mtime: own, .. } => mtime == own,
                OverlayEntry::Deleted => mtime == 0,
                OverlayEntry::CreatedDir { mtime: own, .. } => mtime == own,
            },
    {
        match self {
            OverlayEntry::Created { mtime, .. }
            | OverlayEntry::Modified { mtime, .. }
            | OverlayEntry::CreatedDir { mtime, .. } => *mtime,
            OverlayEntry::Deleted => 0,
        }
    }
}

/// An entry as a mathematical value has the kind and every field of the
/// entry.
pub proof fn view_keeps_kind_and_fields(content: Vec<u8>, mode: u16, mtime: u64)
    ensures
        (OverlayEntry::Created { content, mode, mtime })@ == (EntryView::Created {
            content: content@,
            mode,
            mtime,
        }),
        (OverlayEntry::Modified { content, mode, mtime })@ == (EntryView::Modified {
            content: content@,
            mode,
            mtime,
        }),
        (OverlayEntry::CreatedDir { mode, mtime })@ == (EntryView::CreatedDir { mode, mtime }),
        OverlayEntry::Deleted@ == EntryView::Deleted,
{
}

/// Files and directories answer with their own mode and time, files also with
/// their own bytes; only a tombstone answers 0, and directories and
/// tombstones have no bytes.
pub proof fn accessors_give_the_fields(content: Seq<u8>, mode: u16, mtime: u64)
    ensures
        (EntryView::Created { content, mode, mtime }).content() == Some(content),
        (EntryView::Created { content, mode, mtime }).mode() == mode,
        (EntryView::Created { content, mode, mtime }).mtime() == mtime,
        (EntryView::Modified { content, mode, mtime }).content() == Some(content),
        (EntryView::Modified { content, mode, mtime }).mode() == mode,
        (EntryView::Modified { content, mode, mtime }).mtime() == mtime,
        (EntryView::CreatedDir { mode, mtime }).content() is None,
        (EntryView::CreatedDir { mode, mtime }).mode() == mode,
        (EntryView::CreatedDir { mode, mtime }).mtime() == mtime,
        EntryView::Deleted.content() is None,
        EntryView::Deleted.mode() == 0,
        EntryView::Deleted.mtime() == 0,
{
}

} // verus!
