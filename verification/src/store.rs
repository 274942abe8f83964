//! A map from keys to entries, kept as a vector in ascending key order.

use crate::collate::{self, Collation};
use crate::entry::{self, OverlayEntry};
use vstd::prelude::*;

verus! {

/// The keys of a vector of pairs.
pub open spec fn keys(pairs: Seq<(String, OverlayEntry)>) -> Seq<Seq<char>> {
    pairs.map_values(|pair: (String, OverlayEntry)| pair.0@)
}

/// The entries of a vector of pairs.
pub open spec fn values(pairs: Seq<(String, OverlayEntry)>) -> Seq<entry::EntryView> {
    pairs.map_values(|pair: (String, OverlayEntry)| pair.1@)
}

/// The map that holds each of the keys with the value at its place.
pub open spec fn zip_map(ks: Seq<Seq<char>>, vs: Seq<entry::EntryView>) -> Map<
    Seq<char>,
    entry::EntryView,
>
    decreases ks.len(),
{
    if ks.len() == 0 {
        Map::empty()
    } else {
        zip_map(ks.drop_last(), vs.drop_last()).insert(ks.last(), vs.last())
    }
}

/// The map that a vector of pairs stands for.
pub open spec fn contents(pairs: Seq<(String, OverlayEntry)>) -> Map<Seq<char>, entry::EntryView> {
    zip_map(keys(pairs), values(pairs))
}

/// With ascending keys, the map holds the keys, each with the value at its
/// place, and nothing else.
proof fn lemma_zip_map(ks: Seq<Seq<char>>, vs: Seq<entry::EntryView>)
    requires
        ks.len() == vs.len(),
        collate::ascending(ks),
    ensures
        forall|k: Seq<char>| #[trigger] zip_map(ks, vs).contains_key(k) <==> ks.contains(k),
        forall|i: int| 0 <= i < ks.len() ==> zip_map(ks, vs)[#[trigger] ks[i]] == vs[i],
        zip_map(ks, vs).dom().finite(),
        zip_map(ks, vs).len() == ks.len(),
    decreases ks.len(),
{
    let m = zip_map(ks, vs);
    if ks.len() > 0 {
        let ks0 = ks.drop_last();
        let vs0 = vs.drop_last();
        let m0 = zip_map(ks0, vs0);
        assert(collate::ascending(ks0)) by {
            assert forall|i: int, j: int|
                #![trigger ks0[i], ks0[j]]
                0 <= i < j < ks0.len() implies collate::precedes(ks0[i], ks0[j]) by {
                assert(ks0[i] == ks[i] && ks0[j] == ks[j]);
            }
        }
        lemma_zip_map(ks0, vs0);
        let last = ks.len() - 1;
        assert(!ks0.contains(ks.last())) by {
            if ks0.contains(ks.last()) {
                let i = choose|i: int| 0 <= i < ks0.len() && ks0[i] == ks.last();
                assert(collate::precedes(ks[i], ks[last]));
                collate::precedes_is_irreflexive(ks.last());
            }
        }
        assert forall|k: Seq<char>| #[trigger] m.contains_key(k) <==> ks.contains(k) by {
            if ks.contains(k) {
                let i = choose|i: int| 0 <= i < ks.len() && ks[i] == k;
                if i < last {
                    assert(ks0[i] == k);
                }
            }
            if ks0.contains(k) {
                let i = choose|i: int| 0 <= i < ks0.len() && ks0[i] == k;
                assert(ks[i] == k);
            }
            assert(ks[last] == ks.last());
        }
        assert forall|i: int| 0 <= i < ks.len() implies m[#[trigger] ks[i]] == vs[i] by {
            if i < last {
                assert(ks0[i] == ks[i]);
                assert(ks0.contains(ks[i]));
                assert(m0[ks0[i]] == vs0[i]);
            }
        }
    } else {
        assert forall|k: Seq<char>| #[trigger] m.contains_key(k) <==> ks.contains(k) by {}
    }
}

/// What the map of a vector with ascending keys holds.
pub proof fn contents_of_ascending(pairs: Seq<(String, OverlayEntry)>)
    requires
        collate::ascending(keys(pairs)),
    ensures
        forall|k: Seq<char>| #[trigger]
            contents(pairs).contains_key(k) <==> keys(pairs).contains(k),
        forall|i: int|
            0 <= i < pairs.len() ==> #[trigger] contents(pairs)[pairs[i].0@] == pairs[i].1@,
        contents(pairs).dom().finite(),
        contents(pairs).len() == pairs.len(),
{
    lemma_zip_map(keys(pairs), values(pairs));
    assert forall|i: int| 0 <= i < pairs.len() implies #[trigger] contents(
        pairs,
    )[pairs[i].0@] == pairs[i].1@ by {
        assert(keys(pairs)[i] == pairs[i].0@);
        assert(values(pairs)[i] == pairs[i].1@);
    }
}

/// Finds the place of `key`: its index and whether it is there.
pub(crate) fn find(pairs: &Vec<(String, OverlayEntry)>, key: &str) -> (place: (usize, bool))
    requires
        collate::ascending(keys(pairs@)),
    ensures
        place.0 <= pairs.len(),
        forall|i: int|
            0 <= i < place.0 ==> collate::precedes(#[trigger] keys(pairs@)[i], key@),
        place.1 ==> place.0 < pairs.len() && keys(pairs@)[place.0 as int] == key@,
        !place.1 ==> forall|i: int|
            place.0 <= i < pairs.len() ==> collate::precedes(key@, #[trigger] keys(pairs@)[i]),
        place.1 <==> contents(pairs@).contains_key(key@),
{
    let ghost ks = keys(pairs@);
    proof {
        contents_of_ascending(pairs@);
    }
    let mut low: usize = 0;
    let mut high: usize = pairs.len();
    while low < high
        invariant
            low <= high <= pairs.len(),
            ks == keys(pairs@),
            collate::ascending(ks),
            forall|k: Seq<char>| #[trigger] contents(pairs@).contains_key(k) <==> ks.contains(k),
            forall|i: int| 0 <= i < low ==> collate::precedes(#[trigger] ks[i], key@),
            forall|i: int| high <= i < pairs.len() ==> collate::precedes(key@, #[trigger] ks[i]),
        decreases high - low,
    {
        let middle: usize = low + (high - low) / 2;
        assert(ks[middle as int] == pairs[middle as int].0@);
        match collate::collate(pairs[middle].0.as_str(), key) {
            Collation::Same => {
                assert(ks.contains(key@));
                assert forall|i: int| 0 <= i < middle implies collate::precedes(
                    #[trigger] ks[i],
                    key@,
                ) by {
                    assert(collate::precedes(ks[i], ks[middle as int]));
                }
                return (middle, true);
            },
            Collation::Before => {
                assert forall|i: int| 0 <= i < middle + 1 implies collate::precedes(
                    #[trigger] ks[i],
                    key@,
                ) by {
                    if i < middle {
                        collate::precedes_is_transitive(ks[i], ks[middle as int], key@);
                    }
                }
                low = middle + 1;
            },
            Collation::After => {
                assert forall|i: int| middle <= i < pairs.len() implies collate::precedes(
                    key@,
                    #[trigger] ks[i],
                ) by {
                    if middle < i {
                        collate::precedes_is_transitive(key@, ks[middle as int], ks[i]);
                    }
                }
                high = middle;
            },
        }
    }
    assert(!ks.contains(key@)) by {
        if ks.contains(key@) {
            let i = choose|i: int| 0 <= i < ks.len() && ks[i] == key@;
            collate::precedes_is_irreflexive(key@);
        }
    }
    (low, false)
}

/// Puts `entry` at `key`, in place of what was there.
pub(crate) fn put(pairs: &mut Vec<(String, OverlayEntry)>, key: String, entry: OverlayEntry)
    requires
        collate::ascending(keys(old(pairs)@)),
    ensures
        collate::ascending(keys(final(pairs)@)),
        contents(final(pairs)@) == contents(old(pairs)@).insert(key@, entry@),
{
    let ghost before = pairs@;
    let ghost ks = keys(before);
    let ghost vs = values(before);
    let (place, found) = find(pairs, key.as_str());
    let ghost p = place as int;
    if found {
        pairs.set(place, (key, entry));
        proof {
            assert(keys(pairs@) =~= ks);
            assert(values(pairs@) =~= vs.update(p, entry@));
        }
    } else {
        pairs.insert(place, (key, entry));
        proof {
            let after = keys(pairs@);
            assert(after =~= ks.insert(p, key@));
            assert forall|i: int, j: int|
                #![trigger after[i], after[j]]
                0 <= i < j < after.len() implies collate::precedes(after[i], after[j]) by {
                let k = key@;
                if j < p {
                    assert(after[i] == ks[i] && after[j] == ks[j]);
                } else if j == p {
                    assert(after[i] == ks[i] && after[j] == k);
                } else if i < p {
                    assert(after[i] == ks[i] && after[j] == ks[j - 1]);
                } else if i == p {
                    assert(after[i] == k && after[j] == ks[j - 1]);
                } else {
                    assert(after[i] == ks[i - 1] && after[j] == ks[j - 1]);
                }
            }
            assert(values(pairs@) =~= vs.insert(p, entry@));
        }
    }
    proof {
        contents_of_ascending(before);
        contents_of_ascending(pairs@);
        let k = key@;
        let m = contents(before).insert(k, entry@);
        let n = contents(pairs@);
        let ks1 = keys(pairs@);
        let vs1 = values(pairs@);
        assert(ks1[p] == k && pairs@[p].0@ == k && pairs@[p].1@ == entry@);
        assert forall|x: Seq<char>| m.contains_key(x) <==> n.contains_key(x) by {
            if ks.contains(x) {
                let i = choose|i: int| 0 <= i < ks.len() && ks[i] == x;
                if found || i < p {
                    assert(ks1[i] == x);
                } else {
                    assert(ks1[i + 1] == x);
                }
            }
            if ks1.contains(x) {
                let i = choose|i: int| 0 <= i < ks1.len() && ks1[i] == x;
                if found || i < p {
                    assert(ks[i] == x || i == p);
                } else if i > p {
                    assert(ks[i - 1] == x);
                }
            }
        }
        assert forall|x: Seq<char>| m.contains_key(x) implies m[x] == n[x] by {
            if x == k {
                assert(n[pairs@[p].0@] == pairs@[p].1@);
            } else {
                let i = choose|i: int| 0 <= i < ks.len() && ks[i] == x;
                assert(before[i].0@ == x);
                assert(contents(before)[before[i].0@] == before[i].1@);
                let j = if found || i < p {
                    i
                } else {
                    i + 1
                };
                assert(pairs@[j] == before[i]);
                assert(n[pairs@[j].0@] == pairs@[j].1@);
            }
        }
        assert(m =~= n);
    }
}

} // verus!
