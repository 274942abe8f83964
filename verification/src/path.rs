//! Canonical path keys.
//!
//! Paths arrive as `/foo/bar`, `\foo\bar`, `\foo\bar\`, `\foo\.\bar` and the
//! like. All spellings of one path share one key: a leading `/`, no trailing
//! `/` (except for the root itself), `/` between names, and no empty, `.` or
//! `..` segment. A `..` that would climb above the root is dropped.

use crate::collate::{collate, Collation};
use crate::text;
use vstd::prelude::*;

verus! {

/// Both slashes separate the segments of a path.
pub open spec fn is_separator(c: char) -> bool {
    c == '/' || c == '\\'
}

/// The pieces of `s` between its separators, in order; one more piece than
/// there are separators, and any of them may be empty.
pub open spec fn segments(s: Seq<char>) -> Seq<Seq<char>>
    decreases s.len(),
{
    if s.len() == 0 {
        seq![Seq::<char>::empty()]
    } else {
        let before = segments(s.drop_last());
        if is_separator(s.last()) {
            before.push(Seq::<char>::empty())
        } else {
            before.drop_last().push(before.last().push(s.last()))
        }
    }
}

/// The segment `.`.
pub open spec fn dot() -> Seq<char> {
    seq!['.']
}

/// The segment `..`.
pub open spec fn dot_dot() -> Seq<char> {
    seq!['.', '.']
}

/// The names left after one more segment: an empty segment and `.` change
/// nothing, `..` removes the last name if there is one, and any other
/// segment is a name.
pub open spec fn walk(names: Seq<Seq<char>>, segment: Seq<char>) -> Seq<Seq<char>> {
    if segment.len() == 0 || segment == dot() {
        names
    } else if segment == dot_dot() {
        if names.len() == 0 {
            names
        } else {
            names.drop_last()
        }
    } else {
        names.push(segment)
    }
}

/// The names left after walking `segs` in order from the directory `names`.
pub open spec fn walk_all(names: Seq<Seq<char>>, segs: Seq<Seq<char>>) -> Seq<Seq<char>>
    decreases segs.len(),
{
    if segs.len() == 0 {
        names
    } else {
        walk(walk_all(names, segs.drop_last()), segs.last())
    }
}

/// The names on the way from the root to the file that `s` denotes.
pub open spec fn names_of(s: Seq<char>) -> Seq<Seq<char>> {
    walk_all(Seq::empty(), segments(s))
}

/// Each name with a `/` before it.
pub open spec fn join(names: Seq<Seq<char>>) -> Seq<char>
    decreases names.len(),
{
    if names.len() == 0 {
        Seq::empty()
    } else {
        join(names.drop_last()).push('/') + names.last()
    }
}

/// The key of the root directory.
pub open spec fn root_key() -> Seq<char> {
    seq!['/']
}

/// The key of the file that `names` lead to.
pub open spec fn key_of(names: Seq<Seq<char>>) -> Seq<char> {
    if names.len() == 0 {
        root_key()
    } else {
        join(names)
    }
}

/// The canonical key of the path `s`.
pub open spec fn normalize(s: Seq<char>) -> Seq<char> {
    key_of(names_of(s))
}

/// Takes one more segment of a path.
fn walk_segment(names: &mut Vec<String>, segment: String)
    ensures
        text::texts(final(names)@) == walk(text::texts(old(names)@), segment@),
{
    proof {
        reveal_strlit(".");
        reveal_strlit("..");
        assert("."@ =~= dot());
        assert(".."@ =~= dot_dot());
    }
    if segment.as_str().is_empty() || collate(segment.as_str(), ".") == Collation::Same {
        return;
    }
    if collate(segment.as_str(), "..") == Collation::Same {
        let ghost before = names@;
        let _ = names.pop();
        proof {
            if before.len() > 0 {
                assert(text::texts(names@) =~= text::texts(before).drop_last());
            }
        }
        return;
    }
    let ghost before = names@;
    names.push(segment);
    assert(text::texts(names@) =~= text::texts(before).push(segment@));
}

/// Writes `names` out as a key.
fn write_key(names: &Vec<String>) -> (key: String)
    ensures
        key@ == key_of(text::texts(names@)),
{
    if names.len() == 0 {
        proof {
            reveal_strlit("/");
        }
        let key = "/".to_owned();
        assert(key@ =~= root_key());
        return key;
    }
    let mut key = String::new();
    let ghost all = text::texts(names@);
    let mut i: usize = 0;
    while i < names.len()
        invariant
            i <= names.len(),
            all == text::texts(names@),
            key@ == join(all.take(i as int)),
        decreases names.len() - i,
    {
        key.push('/');
        key.append(names[i].as_str());
        assert(all.take(i + 1).drop_last() =~= all.take(i as int));
        i = i + 1;
    }
    assert(all.take(i as int) =~= all);
    key
}

/// Gives the canonical key of a path.
pub fn normalize_path(input: &str) -> (key: String)
    ensures
        key@ == normalize(input@),
{
    let mut names: Vec<String> = Vec::new();
    let mut current = String::new();
    assert(text::texts(names@) =~= Seq::empty());
    assert(segments(Seq::empty()).drop_last() =~= Seq::empty());
    assert(input@.take(0) =~= Seq::empty());
    for c in it: input.chars()
        invariant
            it.seq() == input@,
            segments(input@.take(it.index() as int)).len() > 0,
            current@ == segments(input@.take(it.index() as int)).last(),
            text::texts(names@) == walk_all(
                Seq::empty(),
                segments(input@.take(it.index() as int)).drop_last(),
            ),
    {
        let ghost seen = input@.take(it.index() as int);
        let ghost now = input@.take(it.index() + 1);
        assert(now.drop_last() =~= seen);
        assert(now.last() == c);
        if c == '/' || c == '\\' {
            walk_segment(&mut names, current);
            current = String::new();
            assert(segments(now).drop_last() =~= segments(seen));
        } else {
            current.push(c);
            assert(segments(now).drop_last() =~= segments(seen).drop_last());
        }
    }
    assert(input@.take(input@.len() as int) =~= input@);
    walk_segment(&mut names, current);
    write_key(&names)
}

} // verus!
