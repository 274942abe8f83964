//! In-memory changes on top of a read-only image.
//!
//! Every change to the mounted volume is staged here and the image is never
//! touched. A read asks the overlay first: a hit is answered from the
//! overlay, a tombstone is answered with "not found", and only a miss goes
//! on to the image.
//!
//! Every method takes a path in any spelling and works on its canonical key
//! (see [`crate::path`]).

use crate::clock::{self, now_seconds};
use crate::collate::{self, Collation};
use crate::entry;
use crate::path;
use crate::path_laws;
use crate::store;
use vstd::prelude::*;

pub use crate::entry::OverlayEntry;
pub use crate::path::normalize_path;

verus! {

/// What the overlay says about a path.
#[derive(Debug, PartialEq, Eq)]
pub enum OverlayLookup {
    /// A file or directory is staged at the path.
    Hit(OverlayEntry),
    /// The path is gone. The image must not be asked.
    Deleted,
    /// Nothing is staged at the path. The image has the answer.
    Miss,
}

/// A lookup's answer as a mathematical value.
pub enum LookupView {
    Hit(entry::EntryView),
    Deleted,
    Miss,
}

impl View for OverlayLookup {
    type V = LookupView;

    open spec fn view(&self) -> LookupView {
        match *self {
            OverlayLookup::Hit(entry) => LookupView::Hit(entry@),
            OverlayLookup::Deleted => LookupView::Deleted,
            OverlayLookup::Miss => LookupView::Miss,
        }
    }
}

impl Clone for OverlayLookup {
    fn clone(&self) -> (copy: OverlayLookup)
        ensures
            copy@ == self@,
    {
        match self {
            OverlayLookup::Hit(entry) => OverlayLookup::Hit(entry.clone()),
            OverlayLookup::Deleted => OverlayLookup::Deleted,
            OverlayLookup::Miss => OverlayLookup::Miss,
        }
    }
}

/// What is staged: at most one entry at each key.
pub type Staged = Map<Seq<char>, entry::EntryView>;

/// The answer for `key`.
pub open spec fn answer(staged: Staged, key: Seq<char>) -> LookupView {
    if !staged.contains_key(key) {
        LookupView::Miss
    } else if staged[key] is Deleted {
        LookupView::Deleted
    } else {
        LookupView::Hit(staged[key])
    }
}

/// What is staged once the file at `key` has been written: a file that is
/// new stays new, and anything else becomes a changed file of the image.
pub open spec fn written(
    staged: Staged,
    key: Seq<char>,
    content: Seq<u8>,
    mode: u16,
    mtime: u64,
) -> Staged {
    if staged.contains_key(key) && staged[key] is Created {
        staged.insert(key, entry::EntryView::Created { content, mode, mtime })
    } else {
        staged.insert(key, entry::EntryView::Modified { content, mode, mtime })
    }
}

/// What is staged once a new file is at `key`.
pub open spec fn with_new_file(
    staged: Staged,
    key: Seq<char>,
    content: Seq<u8>,
    mode: u16,
    mtime: u64,
) -> Staged {
    staged.insert(key, entry::EntryView::Created { content, mode, mtime })
}

/// What is staged once a new directory is at `key`.
pub open spec fn with_new_dir(staged: Staged, key: Seq<char>, mode: u16, mtime: u64) -> Staged {
    staged.insert(key, entry::EntryView::CreatedDir { mode, mtime })
}

/// What is staged once `key` is gone.
pub open spec fn deleted(staged: Staged, key: Seq<char>) -> Staged {
    staged.insert(key, entry::EntryView::Deleted)
}

/// Why nothing can be moved from `from` to `to`, if so. A tombstone cannot be
/// moved anywhere, not even onto itself. Any other path can be moved onto
/// itself, and onto another path only if something is staged there.
pub open spec fn rename_refusal(staged: Staged, from: Seq<char>, to: Seq<char>) -> Option<
    Seq<char>,
> {
    if staged.contains_key(from) && staged[from] is Deleted {
        Some("rename: source is a tombstone"@)
    } else if from == to || staged.contains_key(from) {
        None
    } else {
        Some("rename: source has no overlay entry; caller must stage source first"@)
    }
}

/// What is staged once the entry at `from` has moved to `to`: the entry is at
/// `to` and `from` is gone.
pub open spec fn renamed(staged: Staged, from: Seq<char>, to: Seq<char>) -> Staged {
    if from == to {
        staged
    } else {
        deleted(staged.insert(to, staged[from]), from)
    }
}

/// A name that can stand below a directory.
pub open spec fn is_leaf(name: Seq<char>) -> bool {
    name.len() > 0 && !name.contains('/')
}

/// What every key below the directory `dir` starts with.
pub open spec fn dir_prefix(dir: Seq<char>) -> Seq<char> {
    if dir == path::root_key() {
        dir
    } else {
        dir.push('/')
    }
}

/// The key of `name` in the directory `dir`.
pub open spec fn child_key(dir: Seq<char>, name: Seq<char>) -> Seq<char> {
    dir_prefix(dir) + name
}

/// `pairs` are what is staged directly in the directory `dir`, by name and in
/// ascending order.
pub open spec fn is_listing(
    staged: Staged,
    dir: Seq<char>,
    pairs: Seq<(String, OverlayEntry)>,
) -> bool {
    &&& collate::ascending(store::keys(pairs))
    &&& forall|i: int|
        0 <= i < pairs.len() ==> {
            let name = #[trigger] pairs[i].0@;
            &&& is_leaf(name)
            &&& staged.contains_key(child_key(dir, name))
            &&& staged[child_key(dir, name)] == pairs[i].1@
        }
    &&& forall|name: Seq<char>|
        is_leaf(name) && #[trigger] staged.contains_key(child_key(dir, name)) ==> store::keys(
            pairs,
        ).contains(name)
}

/// `pairs` are everything that is staged, by key and in ascending order.
pub open spec fn is_snapshot(staged: Staged, pairs: Seq<(String, OverlayEntry)>) -> bool {
    &&& collate::ascending(store::keys(pairs))
    &&& forall|i: int|
        0 <= i < pairs.len() ==> {
            let key = #[trigger] pairs[i].0@;
            &&& path_laws::is_key(key)
            &&& staged.contains_key(key)
            &&& staged[key] == pairs[i].1@
        }
    &&& forall|key: Seq<char>| #[trigger]
        staged.contains_key(key) ==> store::keys(pairs).contains(key)
}

/// The rest of `key` behind `prefix`, if that is a single name.
fn leaf_behind(prefix: &str, key: &str) -> (leaf: Option<String>)
    ensures
        leaf matches Some(name) ==> is_leaf(name@) && key@ == prefix@ + name@,
        leaf is None ==> forall|name: Seq<char>| is_leaf(name) ==> key@ != #[trigger] (prefix@
            + name),
{
    let mut rest = key.chars();
    assert(key@.skip(0) =~= key@);
    for p in it: prefix.chars()
        invariant
            it.seq() == prefix@,
            it.index() <= key@.len(),
            vstd::std_specs::iter::IteratorSpec::remaining(&rest) == key@.skip(it.index() as int),
            forall|j: int| 0 <= j < it.index() ==> key@[j] == prefix@[j],
    {
        let ghost i = it.index() as int;
        assert(p == prefix@[i]);
        match rest.next() {
            Some(c) => {
                assert(c == key@[i]);
                assert(key@.skip(i).drop_first() =~= key@.skip(i + 1));
                if c != p {
                    assert forall|name: Seq<char>| is_leaf(name) implies key@ != #[trigger] (
                    prefix@ + name) by {
                        assert((prefix@ + name)[i] == prefix@[i]);
                    }
                    return None;
                }
            },
            None => {
                return None;
            },
        }
    }
    let ghost n = prefix@.len() as int;
    let ghost behind = key@.skip(n);
    assert(key@ =~= prefix@ + behind);
    assert forall|name: Seq<char>| key@ == #[trigger] (prefix@ + name) implies name == behind by {
        assert((prefix@ + name).skip(n) =~= name);
    }
    let mut leaf = String::new();
    let ghost mut i: int = 0;
    assert(behind.skip(0) =~= behind);
    loop
        invariant
            0 <= i <= behind.len(),
            leaf@ == behind.take(i),
            !leaf@.contains('/'),
            vstd::std_specs::iter::IteratorSpec::remaining(&rest) == behind.skip(i),
            key@ == prefix@ + behind,
            forall|name: Seq<char>| key@ == #[trigger] (prefix@ + name) ==> name == behind,
        ensures
            leaf@ == behind,
            !behind.contains('/'),
        decreases behind.len() - i,
    {
        match rest.next() {
            Some(c) => {
                assert(c == behind[i]);
                if c == '/' {
                    assert(behind.contains('/'));
                    return None;
                }
                let ghost before = leaf@;
                leaf.push(c);
                proof {
                    assert(leaf@ =~= behind.take(i + 1));
                    assert(behind.skip(i).drop_first() =~= behind.skip(i + 1));
                    assert(!leaf@.contains('/')) by {
                        if leaf@.contains('/') {
                            let j = choose|j: int| 0 <= j < leaf@.len() && leaf@[j] == '/';
                            assert(before[j] == '/');
                        }
                    }
                    i = i + 1;
                }
            },
            None => {
                assert(leaf@ =~= behind);
                break;
            },
        }
    }
    if leaf.as_str().is_empty() {
        return None;
    }
    Some(leaf)
}

/// Changes staged on top of a read-only image.
pub struct Overlay {
    entries: Vec<(String, OverlayEntry)>,
}

impl View for Overlay {
    type V = Staged;

    closed spec fn view(&self) -> Staged {
        store::contents(self.entries@)
    }
}

impl Overlay {
    /// Everything is staged at a canonical key, in ascending key order.
    #[verifier::type_invariant]
    spec fn well_formed(self) -> bool {
        &&& collate::ascending(store::keys(self.entries@))
        &&& forall|key: Seq<char>| #[trigger]
            store::contents(self.entries@).contains_key(key) ==> path_laws::is_key(key)
    }

    /// An overlay with nothing staged.
    pub fn new() -> (overlay: Overlay)
        ensures
            overlay@ == Map::<Seq<char>, entry::EntryView>::empty(),
    {
        Overlay { entries: Vec::new() }
    }

    /// Stages `entry` at the key of a path.
    fn stage(&mut self, key: String, entry: OverlayEntry)
        requires
            path_laws::is_key(key@),
        ensures
            final(self)@ == old(self)@.insert(key@, entry@),
    {
        proof {
            use_type_invariant(&*self);
        }
        let mut entries: Vec<(String, OverlayEntry)> = Vec::new();
        std::mem::swap(&mut entries, &mut self.entries);
        store::put(&mut entries, key, entry);
        self.entries = entries;
    }

    /// The number of keys at which something is staged, tombstones included.
    pub fn changes_count(&self) -> (count: usize)
        ensures
            self@.dom().finite(),
            count == self@.len(),
    {
        proof {
            use_type_invariant(self);
            store::contents_of_ascending(self.entries@);
        }
        self.entries.len()
    }

    /// Tells what is staged at `path`.
    pub fn lookup(&self, path: &str) -> (found: OverlayLookup)
        ensures
            found@ == answer(self@, path::normalize(path@)),
    {
        proof {
            use_type_invariant(self);
            store::contents_of_ascending(self.entries@);
        }
        let key = normalize_path(path);
        let (place, there) = store::find(&self.entries, key.as_str());
        if !there {
            return OverlayLookup::Miss;
        }
        assert(store::keys(self.entries@)[place as int] == self.entries@[place as int].0@);
        match &self.entries[place].1 {
            OverlayEntry::Deleted => OverlayLookup::Deleted,
            entry => OverlayLookup::Hit(entry.clone()),
        }
    }

    /// Whether a new file is staged at `key`.
    fn holds_new_file(&self, key: &str) -> (r: bool)
        ensures
            r == (self@.contains_key(key@) && self@[key@] is Created),
    {
        proof {
            use_type_invariant(self);
            store::contents_of_ascending(self.entries@);
        }
        let (place, there) = store::find(&self.entries, key);
        if !there {
            return false;
        }
        assert(store::keys(self.entries@)[place as int] == self.entries@[place as int].0@);
        matches!(&self.entries[place].1, OverlayEntry::Created { .. })
    }

    /// A copy of what is staged at `key`.
    fn entry_at(&self, key: &str) -> (found: Option<OverlayEntry>)
        ensures
            found is Some <==> self@.contains_key(key@),
            found matches Some(entry) ==> entry@ == self@[key@],
    {
        proof {
            use_type_invariant(self);
            store::contents_of_ascending(self.entries@);
        }
        let (place, there) = store::find(&self.entries, key);
        if !there {
            return None;
        }
        assert(store::keys(self.entries@)[place as int] == self.entries@[place as int].0@);
        Some(self.entries[place].1.clone())
    }

    /// Stages new content of the file at `path`, as written at `mtime`.
    pub fn write_file_at(&mut self, path: &str, content: Vec<u8>, mode: u16, mtime: u64)
        ensures
            final(self)@ == written(old(self)@, path::normalize(path@), content@, mode, mtime),
    {
        proof {
            path_laws::normalize_gives_keys_and_keeps_them(path@);
        }
        let key = normalize_path(path);
        let entry = if self.holds_new_file(key.as_str()) {
            OverlayEntry::Created { content, mode, mtime }
        } else {
            OverlayEntry::Modified { content, mode, mtime }
        };
        self.stage(key, entry);
    }

    /// Stages new content of the file at `path`, as written now. The content
    /// is the whole content of the file.
    pub fn write_file(&mut self, path: &str, content: Vec<u8>, mode: u16)
        ensures
            exists|now: std::time::SystemTime|
                final(self)@ == written(
                    old(self)@,
                    path::normalize(path@),
                    content@,
                    mode,
                    clock::seconds_or_zero(#[trigger] clock::elapsed_since_epoch(now)),
                ),
    {
        self.write_file_at(path, content, mode, now_seconds());
    }

    /// Stages a new file at `path`, as written at `mtime`.
    pub fn create_file_at(&mut self, path: &str, content: Vec<u8>, mode: u16, mtime: u64)
        ensures
            final(self)@ == with_new_file(
                old(self)@,
                path::normalize(path@),
                content@,
                mode,
                mtime,
            ),
    {
        proof {
            path_laws::normalize_gives_keys_and_keeps_them(path@);
        }
        let key = normalize_path(path);
        self.stage(key, OverlayEntry::Created { content, mode, mtime });
    }

    /// Stages a new file at `path`, as written now, in place of what was
    /// staged there. A tombstone is lifted.
    pub fn create_file(&mut self, path: &str, content: Vec<u8>, mode: u16)
        ensures
            exists|now: std::time::SystemTime|
                final(self)@ == with_new_file(
                    old(self)@,
                    path::normalize(path@),
                    content@,
                    mode,
                    clock::seconds_or_zero(#[trigger] clock::elapsed_since_epoch(now)),
                ),
    {
        self.create_file_at(path, content, mode, now_seconds());
    }

    /// Stages a new directory at `path`, as written at `mtime`.
    pub fn create_dir_at(&mut self, path: &str, mode: u16, mtime: u64)
        ensures
            final(self)@ == with_new_dir(old(self)@, path::normalize(path@), mode, mtime),
    {
        proof {
            path_laws::normalize_gives_keys_and_keeps_them(path@);
        }
        let key = normalize_path(path);
        self.stage(key, OverlayEntry::CreatedDir { mode, mtime });
    }

    /// Stages a new directory at `path`, as written now.
    pub fn create_dir(&mut self, path: &str, mode: u16)
        ensures
            exists|now: std::time::SystemTime|
                final(self)@ == with_new_dir(
                    old(self)@,
                    path::normalize(path@),
                    mode,
                    clock::seconds_or_zero(#[trigger] clock::elapsed_since_epoch(now)),
                ),
    {
        self.create_dir_at(path, mode, now_seconds());
    }

    /// Stages a tombstone at `path`. A file that was only ever in the overlay
    /// leaves a tombstone too, so that "deleted" and "never there" stay apart.
    pub fn delete(&mut self, path: &str)
        ensures
            final(self)@ == deleted(old(self)@, path::normalize(path@)),
    {
        proof {
            path_laws::normalize_gives_keys_and_keeps_them(path@);
        }
        let key = normalize_path(path);
        self.stage(key, OverlayEntry::Deleted);
    }

    /// Moves what is staged at `from` to `to`, with a tombstone left at
    /// `from`. Only staged state moves: a file that only the image has must be
    /// staged first. A tombstone is refused whatever `to` is, and any other
    /// path moved onto itself stays as it is.
    pub fn rename(&mut self, from: &str, to: &str) -> (result: Result<(), &'static str>)
        ensures
            match result {
                Ok(_) => {
                    &&& rename_refusal(
                        old(self)@,
                        path::normalize(from@),
                        path::normalize(to@),
                    ) is None
                    &&& final(self)@ == renamed(
                        old(self)@,
                        path::normalize(from@),
                        path::normalize(to@),
                    )
                },
                Err(reason) => {
                    &&& rename_refusal(
                        old(self)@,
                        path::normalize(from@),
                        path::normalize(to@),
                    ) == Some(reason@)
                    &&& final(self)@ == old(self)@
                },
            },
    {
        proof {
            path_laws::normalize_gives_keys_and_keeps_them(from@);
            path_laws::normalize_gives_keys_and_keeps_them(to@);
        }
        let from_key = normalize_path(from);
        let to_key = normalize_path(to);
        let same = from_key == to_key;
        match self.entry_at(from_key.as_str()) {
            None => {
                if same {
                    return Ok(());
                }
                Err("rename: source has no overlay entry; caller must stage source first")
            },
            Some(entry) => {
                if entry.is_deleted() {
                    return Err("rename: source is a tombstone");
                }
                if same {
                    return Ok(());
                }
                self.stage(to_key, entry);
                self.stage(from_key, OverlayEntry::Deleted);
                Ok(())
            },
        }
    }

    /// Lists what is staged directly in the directory `dir`, tombstones
    /// included, by name and in ascending order.
    pub fn iter_dir(&self, dir: &str) -> (listing: Vec<(String, OverlayEntry)>)
        ensures
            is_listing(self@, path::normalize(dir@), listing@),
    {
        proof {
            use_type_invariant(self);
            store::contents_of_ascending(self.entries@);
            reveal_strlit("/");
            assert("/"@ =~= path::root_key());
        }
        let ghost dir_key = path::normalize(dir@);
        let mut prefix = normalize_path(dir);
        if collate::collate(prefix.as_str(), "/") != Collation::Same {
            prefix.push('/');
        }
        let ghost ks = store::keys(self.entries@);
        let mut listing: Vec<(String, OverlayEntry)> = Vec::new();
        let mut i: usize = 0;
        while i < self.entries.len()
            invariant
                i <= self.entries.len(),
                ks == store::keys(self.entries@),
                collate::ascending(ks),
                prefix@ == dir_prefix(dir_key),
                collate::ascending(store::keys(listing@)),
                forall|j: int|
                    0 <= j < listing.len() ==> is_leaf(#[trigger] listing@[j].0@) && exists|n: int|
                        #![trigger ks[n]]
                        0 <= n < i && ks[n] == prefix@ + listing@[j].0@ && self.entries@[n].1@
                            == listing@[j].1@,
                forall|n: int, name: Seq<char>|
                    0 <= n < i && is_leaf(name) && #[trigger] ks[n] == #[trigger] (prefix@ + name)
                        ==> store::keys(listing@).contains(name),
            decreases self.entries.len() - i,
        {
            assert(ks[i as int] == self.entries@[i as int].0@);
            let ghost before = listing@;
            match leaf_behind(prefix.as_str(), self.entries[i].0.as_str()) {
                Some(leaf) => {
                    listing.push((leaf, self.entries[i].1.clone()));
                    proof {
                        let old_keys = store::keys(before);
                        let new_keys = store::keys(listing@);
                        assert(new_keys =~= old_keys.push(leaf@));
                        assert forall|a: int, b: int|
                            #![trigger new_keys[a], new_keys[b]]
                            0 <= a < b < new_keys.len() implies collate::precedes(
                            new_keys[a],
                            new_keys[b],
                        ) by {
                            assert(new_keys[a] == old_keys[a]);
                            if b < old_keys.len() {
                                assert(new_keys[b] == old_keys[b]);
                            } else {
                                assert(before[a].0@ == old_keys[a]);
                                let n = choose|n: int|
                                    #![trigger ks[n]]
                                    0 <= n < i && ks[n] == prefix@ + before[a].0@
                                        && self.entries@[n].1@ == before[a].1@;
                                assert(collate::precedes(ks[n], ks[i as int]));
                                collate::precedes_ignores_common_prefix(
                                    prefix@,
                                    before[a].0@,
                                    leaf@,
                                );
                            }
                        }
                        assert forall|j: int| 0 <= j < listing.len() implies is_leaf(
                            #[trigger] listing@[j].0@,
                        ) && exists|n: int|
                            #![trigger ks[n]]
                            0 <= n < i + 1 && ks[n] == prefix@ + listing@[j].0@
                                && self.entries@[n].1@ == listing@[j].1@ by {
                            if j < before.len() {
                                assert(listing@[j] == before[j]);
                                assert(is_leaf(before[j].0@));
                            } else {
                                assert(ks[i as int] == prefix@ + listing@[j].0@);
                            }
                        }
                        assert forall|n: int, name: Seq<char>|
                            0 <= n < i + 1 && is_leaf(name) && #[trigger] ks[n] == #[trigger] (
                            prefix@ + name) implies new_keys.contains(name) by {
                            if n < i {
                                assert(old_keys.contains(name));
                                let j = choose|j: int|
                                    0 <= j < old_keys.len() && old_keys[j] == name;
                                assert(new_keys[j] == name);
                            } else {
                                assert((prefix@ + name).skip(prefix@.len() as int) =~= name);
                                assert((prefix@ + leaf@).skip(prefix@.len() as int) =~= leaf@);
                                assert(new_keys[old_keys.len() as int] == name);
                            }
                        }
                    }
                },
                None => {},
            }
            i = i + 1;
        }
        proof {
            assert forall|j: int| 0 <= j < listing.len() implies {
                let name = #[trigger] listing@[j].0@;
                &&& is_leaf(name)
                &&& self@.contains_key(child_key(dir_key, name))
                &&& self@[child_key(dir_key, name)] == listing@[j].1@
            } by {
                let name = listing@[j].0@;
                assert(is_leaf(name));
                let n = choose|n: int|
                    #![trigger ks[n]]
                    0 <= n < i && ks[n] == prefix@ + name && self.entries@[n].1@
                        == listing@[j].1@;
                assert(ks[n] == self.entries@[n].0@);
                assert(ks.contains(ks[n]));
            }
            assert forall|name: Seq<char>|
                is_leaf(name) && #[trigger] self@.contains_key(
                    child_key(dir_key, name),
                ) implies store::keys(listing@).contains(name) by {
                assert(ks.contains(prefix@ + name));
            }
        }
        listing
    }

    /// Drops everything that is staged.
    pub fn clear(&mut self)
        ensures
            final(self)@ == Map::<Seq<char>, entry::EntryView>::empty(),
    {
        self.entries = Vec::new();
    }

    /// Copies everything that is staged, by key and in ascending order.
    pub fn snapshot(&self) -> (copy: Vec<(String, OverlayEntry)>)
        ensures
            is_snapshot(self@, copy@),
    {
        proof {
            use_type_invariant(self);
            store::contents_of_ascending(self.entries@);
        }
        let mut copy: Vec<(String, OverlayEntry)> = Vec::new();
        let mut i: usize = 0;
        while i < self.entries.len()
            invariant
                i <= self.entries.len(),
                copy.len() == i,
                forall|j: int|
                    0 <= j < i ==> (#[trigger] copy@[j]).0@ == self.entries@[j].0@ && copy@[j].1@
                        == self.entries@[j].1@,
            decreases self.entries.len() - i,
        {
            copy.push((self.entries[i].0.clone(), self.entries[i].1.clone()));
            i = i + 1;
        }
        proof {
            assert(store::keys(copy@) =~= store::keys(self.entries@));
            assert forall|j: int| 0 <= j < copy.len() implies {
                let key = #[trigger] copy@[j].0@;
                &&& path_laws::is_key(key)
                &&& self@.contains_key(key)
                &&& self@[key] == copy@[j].1@
            } by {
                assert(copy@[j].0@ == self.entries@[j].0@);
                assert(store::keys(self.entries@)[j] == self.entries@[j].0@);
                assert(store::keys(self.entries@).contains(self.entries@[j].0@));
                assert(self@.contains_key(self.entries@[j].0@));
                assert(store::contents(self.entries@)[self.entries@[j].0@]
                    == self.entries@[j].1@);
            }
        }
        copy
    }
}

impl Default for Overlay {
    fn default() -> (overlay: Overlay)
        ensures
            overlay@ == Map::<Seq<char>, entry::EntryView>::empty(),
    {
        Overlay::new()
    }
}

} // verus!
