//! What holds of listings and snapshots.

use crate::collate;
use crate::entry;
use crate::overlay;
use crate::overlay::OverlayEntry;
use crate::path;
use crate::path_laws;
use crate::store;
use vstd::prelude::*;

verus! {

/// Two ascending sequences of the same strings are the same sequence.
proof fn lemma_ascending_is_unique(a: Seq<Seq<char>>, b: Seq<Seq<char>>)
    requires
        collate::ascending(a),
        collate::ascending(b),
        forall|k: Seq<char>| #[trigger] a.contains(k) <==> b.contains(k),
    ensures
        a == b,
    decreases a.len(),
{
    if a.len() == 0 {
        if b.len() > 0 {
            assert(b.contains(b[0]));
            assert(a.contains(b[0]));
        }
        assert(a =~= b);
    } else {
        assert(a.contains(a[0]));
        assert(b.contains(a[0]));
        let x = a.last();
        let y = b.last();
        assert(a[a.len() - 1] == x && b[b.len() - 1] == y);
        assert(a.contains(x) && b.contains(y));
        assert(b.contains(x) && a.contains(y));
        let i = choose|i: int| 0 <= i < b.len() && b[i] == x;
        let j = choose|j: int| 0 <= j < a.len() && a[j] == y;
        if x != y {
            assert(collate::precedes(b[i], b[b.len() - 1]));
            assert(collate::precedes(a[j], a[a.len() - 1]));
            collate::precedes_is_asymmetric(x, y);
        }
        let a0 = a.drop_last();
        let b0 = b.drop_last();
        assert forall|k: Seq<char>| #[trigger] a0.contains(k) <==> b0.contains(k) by {
            collate::precedes_is_irreflexive(k);
            if a0.contains(k) {
                let n = choose|n: int| 0 <= n < a0.len() && a0[n] == k;
                assert(a[n] == k);
                assert(collate::precedes(a[n], a[a.len() - 1]));
                assert(0 <= n < a.len());
                assert(a.contains(k));
                assert(b.contains(k));
                let m = choose|m: int| 0 <= m < b.len() && b[m] == k;
                assert(m < b.len() - 1);
                assert(b0[m] == k);
            }
            if b0.contains(k) {
                let n = choose|n: int| 0 <= n < b0.len() && b0[n] == k;
                assert(b[n] == k);
                assert(collate::precedes(b[n], b[b.len() - 1]));
                assert(0 <= n < b.len());
                assert(b.contains(k));
                assert(a.contains(k));
                let m = choose|m: int| 0 <= m < a.len() && a[m] == k;
                assert(m < a.len() - 1);
                assert(a0[m] == k);
            }
        }
        assert forall|n: int, m: int|
            #![trigger a0[n], a0[m]]
            0 <= n < m < a0.len() implies collate::precedes(a0[n], a0[m]) by {
            assert(a0[n] == a[n] && a0[m] == a[m]);
        }
        assert forall|n: int, m: int|
            #![trigger b0[n], b0[m]]
            0 <= n < m < b0.len() implies collate::precedes(b0[n], b0[m]) by {
            assert(b0[n] == b[n] && b0[m] == b[m]);
        }
        lemma_ascending_is_unique(a0, b0);
        assert(a =~= a0.push(x));
        assert(b =~= b0.push(y));
    }
}

/// A snapshot holds exactly what is staged, one pair for each change.
pub proof fn snapshot_holds_what_is_staged(
    staged: overlay::Staged,
    pairs: Seq<(String, OverlayEntry)>,
)
    requires
        overlay::is_snapshot(staged, pairs),
    ensures
        store::contents(pairs) == staged,
        pairs.len() == staged.len(),
{
    store::contents_of_ascending(pairs);
    let m = store::contents(pairs);
    assert forall|key: Seq<char>| m.contains_key(key) <==> staged.contains_key(key) by {
        if store::keys(pairs).contains(key) {
            let i = choose|i: int| 0 <= i < pairs.len() && store::keys(pairs)[i] == key;
            assert(pairs[i].0@ == key);
        }
    }
    assert forall|key: Seq<char>| m.contains_key(key) implies m[key] == staged[key] by {
        let i = choose|i: int| 0 <= i < pairs.len() && store::keys(pairs)[i] == key;
        assert(pairs[i].0@ == key);
        assert(store::contents(pairs)[pairs[i].0@] == pairs[i].1@);
    }
    assert(m =~= staged);
}

/// What is staged determines its snapshot.
pub proof fn snapshot_is_determined(
    staged: overlay::Staged,
    a: Seq<(String, OverlayEntry)>,
    b: Seq<(String, OverlayEntry)>,
)
    requires
        overlay::is_snapshot(staged, a),
        overlay::is_snapshot(staged, b),
    ensures
        store::keys(a) == store::keys(b),
        store::values(a) == store::values(b),
{
    snapshot_holds_what_is_staged(staged, a);
    snapshot_holds_what_is_staged(staged, b);
    store::contents_of_ascending(a);
    store::contents_of_ascending(b);
    assert forall|k: Seq<char>| #[trigger] store::keys(a).contains(k) <==> store::keys(
        b,
    ).contains(k) by {
        assert(store::contents(a).contains_key(k) <==> store::keys(a).contains(k));
        assert(store::contents(b).contains_key(k) <==> store::keys(b).contains(k));
    }
    lemma_ascending_is_unique(store::keys(a), store::keys(b));
    assert forall|i: int| 0 <= i < a.len() implies store::values(a)[i] == store::values(b)[i] by {
        assert(store::keys(a)[i] == store::keys(b)[i]);
        assert(a[i].0@ == store::keys(a)[i]);
        assert(b[i].0@ == store::keys(b)[i]);
    }
    assert(store::values(a) =~= store::values(b));
}

/// What is staged determines the listing of each directory.
pub proof fn listing_is_determined(
    staged: overlay::Staged,
    dir: Seq<char>,
    a: Seq<(String, OverlayEntry)>,
    b: Seq<(String, OverlayEntry)>,
)
    requires
        overlay::is_listing(staged, dir, a),
        overlay::is_listing(staged, dir, b),
    ensures
        store::keys(a) == store::keys(b),
        store::values(a) == store::values(b),
{
    assert forall|k: Seq<char>| #[trigger] store::keys(a).contains(k) <==> store::keys(
        b,
    ).contains(k) by {
        if store::keys(a).contains(k) {
            let i = choose|i: int| 0 <= i < a.len() && store::keys(a)[i] == k;
            assert(a[i].0@ == k);
            assert(staged.contains_key(overlay::child_key(dir, k)));
        }
        if store::keys(b).contains(k) {
            let i = choose|i: int| 0 <= i < b.len() && store::keys(b)[i] == k;
            assert(b[i].0@ == k);
            assert(staged.contains_key(overlay::child_key(dir, k)));
        }
    }
    lemma_ascending_is_unique(store::keys(a), store::keys(b));
    assert forall|i: int| 0 <= i < a.len() implies store::values(a)[i] == store::values(b)[i] by {
        assert(store::keys(a)[i] == store::keys(b)[i]);
        assert(a[i].0@ == store::keys(a)[i]);
        assert(b[i].0@ == store::keys(b)[i]);
    }
    assert(store::values(a) =~= store::values(b));
}

/// A name below a directory has the directory's path, a slash and the name as
/// a path.
pub proof fn child_path_leads_to_the_child(p: Seq<char>, sep: char, name: Seq<char>)
    requires
        path::is_separator(sep),
        path_laws::is_name(name),
    ensures
        path::normalize(p.push(sep) + name) == overlay::child_key(path::normalize(p), name),
{
    path_laws::names_of_two_parts(p, sep, name);
    path_laws::names_of_a_path_are_names(p);
    path_laws::names_are_their_only_segment(name);
    path_laws::walking_a_name_adds_it(path::names_of(p), name);
    let names = path::names_of(p);
    lemma_child_key_of_names(names, name);
}

/// The key of `names` with one more name is the child's key.
proof fn lemma_child_key_of_names(names: Seq<Seq<char>>, name: Seq<char>)
    requires
        path_laws::are_names(names),
        path_laws::is_name(name),
    ensures
        path::key_of(names.push(name)) == overlay::child_key(path::key_of(names), name),
{
    assert(names.push(name).drop_last() =~= names);
    if names.len() == 0 {
        assert(path::join(names) =~= Seq::<char>::empty());
        assert(path::key_of(names.push(name)) =~= overlay::child_key(path::root_key(), name));
    } else {
        path_laws::key_determines_its_names(names);
        path_laws::key_determines_its_names(Seq::empty());
        assert(path::key_of(names) != path::root_key()) by {
            assert(path::key_of(Seq::empty()) == path::root_key());
        }
    }
}

/// Below a directory only names are listed: no `.`, no `..`, no separators.
pub proof fn listed_names_are_names(dir: Seq<char>, name: Seq<char>)
    requires
        path_laws::is_key(dir),
        path_laws::is_key(overlay::child_key(dir, name)),
        overlay::is_leaf(name),
    ensures
        path_laws::is_name(name),
{
    let key = overlay::child_key(dir, name);
    lemma_child_key_is_not_root(dir, name);
    parent_exists(key);
    let (d, n) = choose|d: Seq<char>, n: Seq<char>| is_child(d, n, key);
    parent_is_unique(key, dir, name, d, n);
}

/// `key` is the key of the name `name` in the directory `dir`.
pub open spec fn is_child(dir: Seq<char>, name: Seq<char>, key: Seq<char>) -> bool {
    &&& path_laws::is_key(dir)
    &&& path_laws::is_name(name)
    &&& key == overlay::child_key(dir, name)
}

proof fn lemma_child_key_is_not_root(dir: Seq<char>, name: Seq<char>)
    requires
        path_laws::is_key(dir),
        overlay::is_leaf(name),
    ensures
        overlay::child_key(dir, name) != path::root_key(),
{
    path_laws::normalize_gives_keys_and_keeps_them(dir);
    path_laws::key_has_single_forward_slashes(dir);
    assert(overlay::child_key(dir, name).len() > 1);
}

/// Every key but the root's stands in some directory.
pub proof fn parent_exists(key: Seq<char>)
    requires
        path_laws::is_key(key),
        key != path::root_key(),
    ensures
        exists|dir: Seq<char>, name: Seq<char>| is_child(dir, name, key),
{
    let names = choose|names: Seq<Seq<char>>|
        path_laws::are_names(names) && key == #[trigger] path::key_of(names);
    let above = names.drop_last();
    assert forall|i: int| 0 <= i < above.len() implies path_laws::is_name(#[trigger] above[i]) by {
        assert(above[i] == names[i]);
    }
    assert(path_laws::is_name(names[names.len() - 1]));
    lemma_child_key_of_names(above, names.last());
    assert(above.push(names.last()) =~= names);
    assert(is_child(path::key_of(above), names.last(), key));
}

/// A key stands in one directory only, under one name: no entry is listed
/// twice.
pub proof fn parent_is_unique(
    key: Seq<char>,
    dir: Seq<char>,
    name: Seq<char>,
    other_dir: Seq<char>,
    other_name: Seq<char>,
)
    requires
        path_laws::is_key(dir),
        path_laws::is_key(other_dir),
        overlay::is_leaf(name),
        path_laws::is_name(other_name),
        key == overlay::child_key(dir, name),
        key == overlay::child_key(other_dir, other_name),
    ensures
        dir == other_dir,
        name == other_name,
{
    path_laws::normalize_gives_keys_and_keeps_them(dir);
    path_laws::key_has_single_forward_slashes(dir);
    path_laws::normalize_gives_keys_and_keeps_them(other_dir);
    path_laws::key_has_single_forward_slashes(other_dir);
    let a = overlay::dir_prefix(dir);
    let b = overlay::dir_prefix(other_dir);
    assert(a.last() == '/' && b.last() == '/');
    assert(key.len() == a.len() + name.len() && key.len() == b.len() + other_name.len());
    if a.len() < b.len() {
        let i = b.len() - 1 - a.len();
        assert(key[b.len() - 1] == b[b.len() - 1]);
        assert(key[b.len() - 1] == name[i]);
    }
    if b.len() < a.len() {
        let i = a.len() - 1 - b.len();
        assert(key[a.len() - 1] == a[a.len() - 1]);
        assert(key[a.len() - 1] == other_name[i]);
    }
    assert(a =~= key.take(a.len() as int));
    assert(b =~= key.take(b.len() as int));
    assert(name =~= key.skip(a.len() as int));
    assert(other_name =~= key.skip(b.len() as int));
    if dir == path::root_key() && other_dir != path::root_key() {
        assert(other_dir.push('/').len() > 1);
    }
    if dir != path::root_key() && other_dir == path::root_key() {
        assert(dir.push('/').len() > 1);
    }
    assert(dir.push('/').drop_last() =~= dir);
    assert(other_dir.push('/').drop_last() =~= other_dir);
}

/// Whatever is staged, but for the root itself, is listed in the directory it
/// stands in, with its entry.
pub proof fn staged_entry_is_listed_in_its_directory(
    staged: overlay::Staged,
    dir: Seq<char>,
    name: Seq<char>,
    pairs: Seq<(String, OverlayEntry)>,
)
    requires
        path_laws::is_name(name),
        staged.contains_key(overlay::child_key(dir, name)),
        overlay::is_listing(staged, dir, pairs),
    ensures
        exists|i: int|
            0 <= i < pairs.len() && (#[trigger] pairs[i]).0@ == name && pairs[i].1@
                == staged[overlay::child_key(dir, name)],
{
    assert(!name.contains('/'));
    assert(store::keys(pairs).contains(name));
    let i = choose|i: int| 0 <= i < pairs.len() && store::keys(pairs)[i] == name;
    assert(pairs[i].0@ == name);
}

/// A listing tells the overlay's answer for every name in the directory: a
/// name listed with a tombstone is gone, a name listed otherwise is a hit,
/// and a name that is not listed is a miss. So it is all that a merge with
/// the image's own listing needs.
pub proof fn listing_answers_for_every_name(
    staged: overlay::Staged,
    dir: Seq<char>,
    name: Seq<char>,
    pairs: Seq<(String, OverlayEntry)>,
)
    requires
        path_laws::is_name(name),
        overlay::is_listing(staged, dir, pairs),
    ensures
        overlay::answer(staged, overlay::child_key(dir, name)) is Miss <==> !store::keys(
            pairs,
        ).contains(name),
        forall|i: int|
            0 <= i < pairs.len() && (#[trigger] pairs[i]).0@ == name ==> overlay::answer(
                staged,
                overlay::child_key(dir, name),
            ) == (if pairs[i].1@ is Deleted {
                overlay::LookupView::Deleted
            } else {
                overlay::LookupView::Hit(pairs[i].1@)
            }),
{
    assert(overlay::is_leaf(name)) by {
        if name.contains('/') {
            let j = choose|j: int| 0 <= j < name.len() && name[j] == '/';
            assert(!path::is_separator(name[j]));
        }
    }
    if store::keys(pairs).contains(name) {
        let i = choose|i: int| 0 <= i < pairs.len() && store::keys(pairs)[i] == name;
        assert(pairs[i].0@ == name);
    }
}

/// In a snapshot the keys rise in code point order: where two of them first
/// differ, the earlier one has ended or has the smaller code point.
pub proof fn snapshot_rises_in_code_point_order(
    staged: overlay::Staged,
    pairs: Seq<(String, OverlayEntry)>,
    i: int,
    j: int,
    n: int,
)
    requires
        overlay::is_snapshot(staged, pairs),
        0 <= i < j < pairs.len(),
        0 <= n <= pairs[i].0@.len(),
        n <= pairs[j].0@.len(),
        forall|m: int| 0 <= m < n ==> pairs[i].0@[m] == pairs[j].0@[m],
        n < pairs[i].0@.len() && n < pairs[j].0@.len() ==> pairs[i].0@[n] != pairs[j].0@[n],
    ensures
        n < pairs[j].0@.len(),
        n < pairs[i].0@.len() ==> (pairs[i].0@[n] as int) < (pairs[j].0@[n] as int),
{
    let ks = store::keys(pairs);
    assert(ks[i] == pairs[i].0@ && ks[j] == pairs[j].0@);
    assert(collate::precedes(ks[i], ks[j]));
    collate::first_difference_decides(ks[i], ks[j], n);
}

/// In a listing the keys rise in code point order: where two of them first
/// differ, the earlier one has ended or has the smaller code point.
pub proof fn listing_rises_in_code_point_order(
    staged: overlay::Staged,
    dir: Seq<char>,
    pairs: Seq<(String, OverlayEntry)>,
    i: int,
    j: int,
    n: int,
)
    requires
        overlay::is_listing(staged, dir, pairs),
        0 <= i < j < pairs.len(),
        0 <= n <= pairs[i].0@.len(),
        n <= pairs[j].0@.len(),
        forall|m: int| 0 <= m < n ==> pairs[i].0@[m] == pairs[j].0@[m],
        n < pairs[i].0@.len() && n < pairs[j].0@.len() ==> pairs[i].0@[n] != pairs[j].0@[n],
    ensures
        n < pairs[j].0@.len(),
        n < pairs[i].0@.len() ==> (pairs[i].0@[n] as int) < (pairs[j].0@[n] as int),
{
    let ks = store::keys(pairs);
    assert(ks[i] == pairs[i].0@ && ks[j] == pairs[j].0@);
    assert(collate::precedes(ks[i], ks[j]));
    collate::first_difference_decides(ks[i], ks[j], n);
}

/// A snapshot and lookups tell the same: looking up a listed key gives the
/// entry listed with it, and a path that does not miss has its key listed.
pub proof fn snapshot_agrees_with_lookups(
    staged: overlay::Staged,
    pairs: Seq<(String, OverlayEntry)>,
    p: Seq<char>,
)
    requires
        overlay::is_snapshot(staged, pairs),
    ensures
        forall|i: int|
            0 <= i < pairs.len() ==> overlay::answer(
                staged,
                path::normalize((#[trigger] pairs[i]).0@),
            ) == (if pairs[i].1@ == entry::EntryView::Deleted {
                overlay::LookupView::Deleted
            } else {
                overlay::LookupView::Hit(pairs[i].1@)
            }),
        !(overlay::answer(staged, path::normalize(p)) is Miss) <==> exists|i: int|
            0 <= i < pairs.len() && (#[trigger] pairs[i]).0@ == path::normalize(p),
{
    assert forall|i: int| 0 <= i < pairs.len() implies overlay::answer(
        staged,
        path::normalize((#[trigger] pairs[i]).0@),
    ) == (if pairs[i].1@ == entry::EntryView::Deleted {
        overlay::LookupView::Deleted
    } else {
        overlay::LookupView::Hit(pairs[i].1@)
    }) by {
        let key = pairs[i].0@;
        path_laws::normalize_gives_keys_and_keeps_them(key);
        assert(staged.contains_key(key));
    }
    let key = path::normalize(p);
    if staged.contains_key(key) {
        assert(store::keys(pairs).contains(key));
        let i = choose|i: int| 0 <= i < pairs.len() && store::keys(pairs)[i] == key;
        assert(pairs[i].0@ == key);
    }
}

/// A listing and lookups tell the same: a name is listed exactly when looking
/// up the directory's path, a slash and the name does not miss, and it is
/// listed with the entry that is staged there.
pub proof fn listing_agrees_with_lookups(
    staged: overlay::Staged,
    p: Seq<char>,
    sep: char,
    name: Seq<char>,
    pairs: Seq<(String, OverlayEntry)>,
)
    requires
        overlay::is_listing(staged, path::normalize(p), pairs),
        sep == '/' || sep == '\\',
        name.len() > 0,
        name != seq!['.'],
        name != seq!['.', '.'],
        forall|i: int| 0 <= i < name.len() ==> #[trigger] name[i] != '/' && name[i] != '\\',
    ensures
        !(overlay::answer(staged, path::normalize(p.push(sep) + name)) is Miss) <==> exists|i: int|
            0 <= i < pairs.len() && (#[trigger] pairs[i]).0@ == name,
        forall|i: int|
            0 <= i < pairs.len() && (#[trigger] pairs[i]).0@ == name ==> overlay::answer(
                staged,
                path::normalize(p.push(sep) + name),
            ) == (if pairs[i].1@ == entry::EntryView::Deleted {
                overlay::LookupView::Deleted
            } else {
                overlay::LookupView::Hit(pairs[i].1@)
            }),
{
    assert(path_laws::is_name(name));
    child_path_leads_to_the_child(p, sep, name);
    listing_answers_for_every_name(staged, path::normalize(p), name, pairs);
    if store::keys(pairs).contains(name) {
        let i = choose|i: int| 0 <= i < pairs.len() && store::keys(pairs)[i] == name;
        assert(pairs[i].0@ == name);
    }
    assert forall|i: int| 0 <= i < pairs.len() && (#[trigger] pairs[i]).0@ == name implies store::keys(
        pairs,
    ).contains(name) by {
        assert(store::keys(pairs)[i] == name);
    }
}

/// A listing holds names only: none is empty, `.` or `..`, and none holds a
/// slash, so that nothing from deeper directories is listed.
pub proof fn listing_holds_names_only(
    staged: overlay::Staged,
    p: Seq<char>,
    pairs: Seq<(String, OverlayEntry)>,
    i: int,
)
    requires
        forall|key: Seq<char>| #[trigger]
            staged.contains_key(key) ==> path::normalize(key) == key,
        overlay::is_listing(staged, path::normalize(p), pairs),
        0 <= i < pairs.len(),
    ensures
        pairs[i].0@.len() > 0,
        pairs[i].0@ != seq!['.'],
        pairs[i].0@ != seq!['.', '.'],
        forall|n: int|
            0 <= n < pairs[i].0@.len() ==> #[trigger] pairs[i].0@[n] != '/' && pairs[i].0@[n]
                != '\\',
{
    let name = pairs[i].0@;
    let dir = path::normalize(p);
    let key = overlay::child_key(dir, name);
    assert(overlay::is_leaf(name) && staged.contains_key(key));
    path_laws::normalize_gives_keys_and_keeps_them(p);
    path_laws::normalize_gives_keys_and_keeps_them(key);
    listed_names_are_names(dir, name);
    assert forall|n: int| 0 <= n < name.len() implies #[trigger] name[n] != '/' && name[n]
        != '\\' by {
        assert(!path::is_separator(name[n]));
    }
}

} // verus!
