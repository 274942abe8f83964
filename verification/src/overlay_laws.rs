//! What holds of the overlay across its operations.

use crate::entry;
use crate::overlay;
use crate::overlay::{OverlayEntry, OverlayLookup};
use crate::path;
use crate::path_laws;
use vstd::prelude::*;

verus! {

/// Everything is staged at a canonical key.
pub open spec fn has_canonical_keys(staged: overlay::Staged) -> bool {
    forall|key: Seq<char>| #[trigger] staged.contains_key(key) ==> path_laws::is_key(key)
}

/// A new file is found under every spelling of its path, with its content,
/// mode and time, whatever was staged there before.
pub proof fn created_file_is_found(
    staged: overlay::Staged,
    p: Seq<char>,
    q: Seq<char>,
    content: Seq<u8>,
    mode: u16,
    mtime: u64,
)
    requires
        path::normalize(p) == path::normalize(q),
    ensures
        overlay::answer(
            overlay::with_new_file(staged, path::normalize(p), content, mode, mtime),
            path::normalize(q),
        ) == overlay::LookupView::Hit(entry::EntryView::Created { content, mode, mtime }),
{
}

/// A written file is found under every spelling of its path, with its
/// content, mode and time. It counts as new only if a new file was staged
/// there before.
pub proof fn written_file_is_found(
    staged: overlay::Staged,
    p: Seq<char>,
    q: Seq<char>,
    content: Seq<u8>,
    mode: u16,
    mtime: u64,
)
    requires
        path::normalize(p) == path::normalize(q),
    ensures
        overlay::answer(
            overlay::written(staged, path::normalize(p), content, mode, mtime),
            path::normalize(q),
        ) == overlay::LookupView::Hit(
            if overlay::answer(staged, path::normalize(p)) matches overlay::LookupView::Hit(e)
                && e is Created {
                entry::EntryView::Created { content, mode, mtime }
            } else {
                entry::EntryView::Modified { content, mode, mtime }
            },
        ),
{
}

/// A new directory is found under every spelling of its path.
pub proof fn created_dir_is_found(
    staged: overlay::Staged,
    p: Seq<char>,
    q: Seq<char>,
    mode: u16,
    mtime: u64,
)
    requires
        path::normalize(p) == path::normalize(q),
    ensures
        overlay::answer(
            overlay::with_new_dir(staged, path::normalize(p), mode, mtime),
            path::normalize(q),
        ) == overlay::LookupView::Hit(entry::EntryView::CreatedDir { mode, mtime }),
{
}

/// A deleted path is a tombstone under every spelling, whatever was staged
/// there before, until something is created or written there again.
pub proof fn deleted_path_is_a_tombstone(staged: overlay::Staged, p: Seq<char>, q: Seq<char>)
    requires
        path::normalize(p) == path::normalize(q),
    ensures
        overlay::answer(
            overlay::deleted(staged, path::normalize(p)),
            path::normalize(q),
        ) == overlay::LookupView::Deleted,
{
}

/// Staging something at one path changes the answer at no other path.
pub proof fn other_paths_keep_their_answers(
    staged: overlay::Staged,
    p: Seq<char>,
    q: Seq<char>,
    content: Seq<u8>,
    mode: u16,
    mtime: u64,
)
    requires
        path::normalize(p) != path::normalize(q),
    ensures
        ({
            let at = path::normalize(p);
            let asked = path::normalize(q);
            let before = overlay::answer(staged, asked);
            &&& overlay::answer(
                overlay::with_new_file(staged, at, content, mode, mtime),
                asked,
            ) == before
            &&& overlay::answer(
                overlay::written(staged, at, content, mode, mtime),
                asked,
            ) == before
            &&& overlay::answer(overlay::with_new_dir(staged, at, mode, mtime), asked) == before
            &&& overlay::answer(overlay::deleted(staged, at), asked) == before
        }),
{
}

/// A rename that is not refused, between different paths, leaves a tombstone
/// at the source, gives the destination what the source had, kind, content,
/// mode and time, and changes no other path.
pub proof fn rename_moves_the_entry(
    staged: overlay::Staged,
    from: Seq<char>,
    to: Seq<char>,
    other: Seq<char>,
)
    requires
        overlay::rename_refusal(staged, path::normalize(from), path::normalize(to)) is None,
        path::normalize(from) != path::normalize(to),
        path::normalize(other) != path::normalize(from),
        path::normalize(other) != path::normalize(to),
    ensures
        ({
            let after = overlay::renamed(staged, path::normalize(from), path::normalize(to));
            &&& overlay::answer(after, path::normalize(from)) == overlay::LookupView::Deleted
            &&& overlay::answer(after, path::normalize(to)) == overlay::answer(
                staged,
                path::normalize(from),
            )
            &&& overlay::answer(staged, path::normalize(from)) is Hit
            &&& overlay::answer(after, path::normalize(other)) == overlay::answer(
                staged,
                path::normalize(other),
            )
        }),
{
}

/// A tombstone cannot be renamed, neither to another path nor to any
/// spelling of its own.
pub proof fn rename_of_a_tombstone_is_refused(
    staged: overlay::Staged,
    from: Seq<char>,
    to: Seq<char>,
)
    requires
        overlay::answer(staged, path::normalize(from)) is Deleted,
    ensures
        overlay::rename_refusal(staged, path::normalize(from), path::normalize(to)) == Some(
            "rename: source is a tombstone"@,
        ),
{
}

/// A rename between two spellings of one path that is not a tombstone
/// succeeds and changes nothing, whether or not anything is staged there.
pub proof fn rename_onto_itself_changes_nothing(
    staged: overlay::Staged,
    from: Seq<char>,
    to: Seq<char>,
)
    requires
        path::normalize(from) == path::normalize(to),
        !(overlay::answer(staged, path::normalize(from)) is Deleted),
    ensures
        overlay::rename_refusal(staged, path::normalize(from), path::normalize(to)) is None,
        overlay::renamed(staged, path::normalize(from), path::normalize(to)) == staged,
{
}

/// A rename between different paths is refused exactly when the source has
/// no file or directory staged: it is absent or a tombstone.
pub proof fn rename_needs_a_staged_source(
    staged: overlay::Staged,
    from: Seq<char>,
    to: Seq<char>,
)
    requires
        path::normalize(from) != path::normalize(to),
    ensures
        overlay::rename_refusal(staged, path::normalize(from), path::normalize(to)) is Some <==> !(
        overlay::answer(staged, path::normalize(from)) is Hit),
{
}

/// A rename there and back succeeds and gives the source its entry back; the
/// other path keeps a tombstone.
pub proof fn rename_back_restores_the_source(
    staged: overlay::Staged,
    from: Seq<char>,
    to: Seq<char>,
)
    requires
        overlay::rename_refusal(staged, path::normalize(from), path::normalize(to)) is None,
        path::normalize(from) != path::normalize(to),
    ensures
        ({
            let a = path::normalize(from);
            let b = path::normalize(to);
            let there = overlay::renamed(staged, a, b);
            &&& overlay::rename_refusal(there, b, a) is None
            &&& overlay::renamed(there, b, a) == overlay::deleted(staged, b)
        }),
{
    let a = path::normalize(from);
    let b = path::normalize(to);
    assert(overlay::renamed(overlay::renamed(staged, a, b), b, a) =~= overlay::deleted(staged, b));
}

/// Staging something counts one more change if nothing was staged at the key
/// before, and no more otherwise: a later write to the same path, or its
/// deletion, replaces what was staged.
pub proof fn one_path_counts_once(
    staged: overlay::Staged,
    p: Seq<char>,
    content: Seq<u8>,
    mode: u16,
    mtime: u64,
)
    requires
        staged.dom().finite(),
    ensures
        ({
            let at = path::normalize(p);
            let count = if staged.contains_key(at) {
                staged.len()
            } else {
                staged.len() + 1
            };
            &&& overlay::with_new_file(staged, at, content, mode, mtime).len() == count
            &&& overlay::written(staged, at, content, mode, mtime).len() == count
            &&& overlay::with_new_dir(staged, at, mode, mtime).len() == count
            &&& overlay::deleted(staged, at).len() == count
        }),
{
}

/// A successful rename never makes a change disappear: the count stays, or
/// grows by one where the destination had nothing staged.
pub proof fn rename_counts_its_destination(
    staged: overlay::Staged,
    from: Seq<char>,
    to: Seq<char>,
)
    requires
        staged.dom().finite(),
        overlay::rename_refusal(staged, path::normalize(from), path::normalize(to)) is None,
    ensures
        overlay::renamed(staged, path::normalize(from), path::normalize(to)).len() == (if path::normalize(
            from,
        ) == path::normalize(to) || staged.contains_key(path::normalize(to)) {
            staged.len()
        } else {
            staged.len() + 1
        }),
{
    let a = path::normalize(from);
    let b = path::normalize(to);
    if a != b {
        let middle = staged.insert(b, staged[a]);
        assert(middle.dom().contains(a));
        assert(overlay::deleted(middle, a).dom() =~= middle.dom());
    }
}

/// No change is counted exactly when every path misses.
pub proof fn clean_overlay_counts_zero(staged: overlay::Staged)
    requires
        staged.dom().finite(),
        has_canonical_keys(staged),
    ensures
        staged.len() == 0 <==> forall|p: Seq<char>|
            overlay::answer(staged, #[trigger] path::normalize(p)) is Miss,
{
    if staged.len() == 0 {
        assert(staged.dom() =~= Set::empty());
        assert forall|p: Seq<char>| overlay::answer(
            staged,
            #[trigger] path::normalize(p),
        ) is Miss by {
            assert(!staged.dom().contains(path::normalize(p)));
        }
    } else {
        let key = staged.dom().choose();
        assert(staged.contains_key(key));
        path_laws::normalize_gives_keys_and_keeps_them(key);
        assert(!(overlay::answer(staged, path::normalize(key)) is Miss));
    }
}

/// Whatever the path, every operation leaves everything staged at canonical
/// keys.
pub proof fn operations_keep_keys_canonical(
    staged: overlay::Staged,
    p: Seq<char>,
    q: Seq<char>,
    content: Seq<u8>,
    mode: u16,
    mtime: u64,
)
    requires
        has_canonical_keys(staged),
    ensures
        has_canonical_keys(
            overlay::with_new_file(staged, path::normalize(p), content, mode, mtime),
        ),
        has_canonical_keys(overlay::written(staged, path::normalize(p), content, mode, mtime)),
        has_canonical_keys(overlay::with_new_dir(staged, path::normalize(p), mode, mtime)),
        has_canonical_keys(overlay::deleted(staged, path::normalize(p))),
        has_canonical_keys(overlay::renamed(staged, path::normalize(p), path::normalize(q))),
{
    path_laws::normalize_gives_keys_and_keeps_them(p);
    path_laws::normalize_gives_keys_and_keeps_them(q);
}

/// Looked up under any spelling, a file that was written or created, or a
/// directory that was created, answers with the mode, the time and the bytes
/// it was staged with.
pub proof fn staged_entry_answers_with_its_fields(
    staged: overlay::Staged,
    p: Seq<char>,
    q: Seq<char>,
    content: Seq<u8>,
    mode: u16,
    mtime: u64,
)
    requires
        path::normalize(p) == path::normalize(q),
    ensures
        overlay::answer(
            overlay::written(staged, path::normalize(p), content, mode, mtime),
            path::normalize(q),
        ) matches overlay::LookupView::Hit(e) && e.mode() == mode && e.mtime() == mtime
            && e.content() == Some(content),
        overlay::answer(
            overlay::with_new_file(staged, path::normalize(p), content, mode, mtime),
            path::normalize(q),
        ) matches overlay::LookupView::Hit(e) && e.mode() == mode && e.mtime() == mtime
            && e.content() == Some(content),
        overlay::answer(
            overlay::with_new_dir(staged, path::normalize(p), mode, mtime),
            path::normalize(q),
        ) matches overlay::LookupView::Hit(e) && e.mode() == mode && e.mtime() == mtime
            && e.content() is None,
{
}

/// A lookup's answer as a mathematical value has the kind of the answer and
/// its entry.
pub proof fn lookup_view_keeps_the_entry(e: OverlayEntry)
    ensures
        OverlayLookup::Hit(e)@ == overlay::LookupView::Hit(e@),
        OverlayLookup::Deleted@ == overlay::LookupView::Deleted,
        OverlayLookup::Miss@ == overlay::LookupView::Miss,
{
}

/// The answer tells what is staged: a miss means that nothing is, a tombstone
/// that one is, and a hit gives the entry.
pub proof fn answer_tells_what_is_staged(staged: overlay::Staged, key: Seq<char>)
    ensures
        overlay::answer(staged, key) is Miss <==> !staged.contains_key(key),
        overlay::answer(staged, key) is Deleted <==> staged.contains_key(key) && staged[key]
            == entry::EntryView::Deleted,
        overlay::answer(staged, key) matches overlay::LookupView::Hit(e) ==> staged.contains_key(
            key,
        ) && staged[key] == e && e != entry::EntryView::Deleted,
{
}

/// Moving something from where nothing is staged to another path is refused
/// with the advice to stage the source first.
pub proof fn rename_of_an_unstaged_source_is_refused(
    staged: overlay::Staged,
    from: Seq<char>,
    to: Seq<char>,
)
    requires
        path::normalize(from) != path::normalize(to),
        overlay::answer(staged, path::normalize(from)) is Miss,
    ensures
        overlay::rename_refusal(staged, path::normalize(from), path::normalize(to)) == Some(
            "rename: source has no overlay entry; caller must stage source first"@,
        ),
{
}

} // verus!
