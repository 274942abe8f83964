//! What holds of canonical path keys.

use crate::path;
use vstd::prelude::*;

verus! {

/// A segment that names a file: not empty, neither `.` nor `..`, and without
/// separators.
pub open spec fn is_name(segment: Seq<char>) -> bool {
    &&& segment.len() > 0
    &&& segment != path::dot()
    &&& segment != path::dot_dot()
    &&& forall|i: int| 0 <= i < segment.len() ==> !path::is_separator(#[trigger] segment[i])
}

/// All of `names` are names.
pub open spec fn are_names(names: Seq<Seq<char>>) -> bool {
    forall|i: int| 0 <= i < names.len() ==> is_name(#[trigger] names[i])
}

/// `key` is the key of some sequence of names.
pub open spec fn is_key(key: Seq<char>) -> bool {
    exists|names: Seq<Seq<char>>| are_names(names) && key == #[trigger] path::key_of(names)
}

/// `s` with every `\` turned into `/`.
pub open spec fn with_forward_slashes(s: Seq<char>) -> Seq<char> {
    s.map_values(
        |c: char|
            if c == '\\' {
                '/'
            } else {
                c
            },
    )
}

proof fn lemma_segments_not_empty(s: Seq<char>)
    ensures
        path::segments(s).len() > 0,
    decreases s.len(),
{
    if s.len() > 0 {
        lemma_segments_not_empty(s.drop_last());
    }
}

/// Around a separator the segments split.
proof fn lemma_segments_around_separator(a: Seq<char>, sep: char, b: Seq<char>)
    requires
        path::is_separator(sep),
    ensures
        path::segments(a.push(sep) + b) == path::segments(a) + path::segments(b),
    decreases b.len(),
{
    let whole = a.push(sep) + b;
    lemma_segments_not_empty(a);
    lemma_segments_not_empty(b);
    if b.len() == 0 {
        assert(whole =~= a.push(sep));
        assert(whole.drop_last() =~= a);
        assert(path::segments(whole) =~= path::segments(a) + path::segments(b));
    } else {
        let shorter = b.drop_last();
        lemma_segments_around_separator(a, sep, shorter);
        lemma_segments_not_empty(shorter);
        assert(whole.drop_last() =~= a.push(sep) + shorter);
        assert(whole.last() == b.last());
        let left = path::segments(a) + path::segments(shorter);
        assert(left.last() == path::segments(shorter).last());
        assert(left.drop_last() =~= path::segments(a) + path::segments(shorter).drop_last());
        assert(path::segments(whole) =~= path::segments(a) + path::segments(b));
    }
}

/// Without separators there is one segment.
proof fn lemma_segments_of_one(s: Seq<char>)
    requires
        forall|i: int| 0 <= i < s.len() ==> !path::is_separator(#[trigger] s[i]),
    ensures
        path::segments(s) == seq![s],
    decreases s.len(),
{
    if s.len() > 0 {
        let shorter = s.drop_last();
        assert forall|i: int| 0 <= i < shorter.len() implies !path::is_separator(
            #[trigger] shorter[i],
        ) by {
            assert(shorter[i] == s[i]);
        }
        lemma_segments_of_one(shorter);
        assert(!path::is_separator(s[s.len() - 1]));
        assert(shorter.push(s.last()) =~= s);
        assert(path::segments(s) =~= seq![s]);
    } else {
        assert(s =~= Seq::<char>::empty());
    }
}

/// No segment holds a separator.
proof fn lemma_segments_hold_no_separator(s: Seq<char>, i: int, j: int)
    requires
        0 <= i < path::segments(s).len(),
        0 <= j < path::segments(s)[i].len(),
    ensures
        !path::is_separator(path::segments(s)[i][j]),
    decreases s.len(),
{
    if s.len() > 0 {
        let before = path::segments(s.drop_last());
        lemma_segments_not_empty(s.drop_last());
        if i < before.len() - 1 {
            lemma_segments_hold_no_separator(s.drop_last(), i, j);
        } else if i == before.len() - 1 && j < before[i].len() {
            lemma_segments_hold_no_separator(s.drop_last(), i, j);
        }
    }
}

/// Walking two runs of segments is walking the first, then the second.
proof fn lemma_walk_all_in_two_runs(
    names: Seq<Seq<char>>,
    first: Seq<Seq<char>>,
    second: Seq<Seq<char>>,
)
    ensures
        path::walk_all(names, first + second) == path::walk_all(
            path::walk_all(names, first),
            second,
        ),
    decreases second.len(),
{
    if second.len() == 0 {
        assert(first + second =~= first);
    } else {
        assert((first + second).drop_last() =~= first + second.drop_last());
        lemma_walk_all_in_two_runs(names, first, second.drop_last());
    }
}

/// Walking one segment is one step.
proof fn lemma_walk_all_of_one(names: Seq<Seq<char>>, segment: Seq<char>)
    ensures
        path::walk_all(names, seq![segment]) == path::walk(names, segment),
{
    reveal_with_fuel(path::walk_all, 2);
    assert(seq![segment].drop_last() =~= Seq::empty());
}

/// Walking names only collects them.
proof fn lemma_walk_all_of_names(start: Seq<Seq<char>>, names: Seq<Seq<char>>)
    requires
        are_names(names),
    ensures
        path::walk_all(start, names) == start + names,
    decreases names.len(),
{
    if names.len() == 0 {
        assert(start + names =~= start);
    } else {
        let shorter = names.drop_last();
        assert(are_names(shorter)) by {
            assert forall|i: int| 0 <= i < shorter.len() implies is_name(#[trigger] shorter[i]) by {
                assert(shorter[i] == names[i]);
            }
        }
        lemma_walk_all_of_names(start, shorter);
        assert(is_name(names[names.len() - 1]));
        assert((start + shorter).push(names.last()) =~= start + names);
    }
}

/// Walking keeps to names, whatever the segments are.
proof fn lemma_walk_all_keeps_names(start: Seq<Seq<char>>, segs: Seq<Seq<char>>)
    requires
        are_names(start),
        forall|i: int, j: int|
            0 <= i < segs.len() && 0 <= j < segs[i].len() ==> !path::is_separator(
                #[trigger] segs[i][j],
            ),
    ensures
        are_names(path::walk_all(start, segs)),
    decreases segs.len(),
{
    if segs.len() > 0 {
        let shorter = segs.drop_last();
        assert forall|i: int, j: int|
            0 <= i < shorter.len() && 0 <= j < shorter[i].len() implies !path::is_separator(
            #[trigger] shorter[i][j],
        ) by {
            assert(shorter[i] == segs[i]);
            assert(!path::is_separator(segs[i][j]));
        }
        lemma_walk_all_keeps_names(start, shorter);
        let last = segs.last();
        assert forall|j: int| 0 <= j < last.len() implies !path::is_separator(
            #[trigger] last[j],
        ) by {
            assert(last[j] == segs[segs.len() - 1][j]);
        }
    }
}

/// The segments of a written key are its names, after the empty segment
/// before the leading slash.
proof fn lemma_segments_of_join(names: Seq<Seq<char>>)
    requires
        are_names(names),
    ensures
        path::segments(path::join(names)) == seq![Seq::<char>::empty()] + names,
    decreases names.len(),
{
    if names.len() == 0 {
        assert(path::segments(path::join(names)) =~= seq![Seq::<char>::empty()] + names);
    } else {
        let shorter = names.drop_last();
        assert forall|i: int| 0 <= i < shorter.len() implies is_name(#[trigger] shorter[i]) by {
            assert(shorter[i] == names[i]);
        }
        lemma_segments_of_join(shorter);
        assert(is_name(names[names.len() - 1]));
        lemma_segments_of_one(names.last());
        lemma_segments_around_separator(path::join(shorter), '/', names.last());
        assert(path::segments(path::join(names)) =~= seq![Seq::<char>::empty()] + names);
    }
}

/// The names of any path are names.
pub proof fn names_of_a_path_are_names(s: Seq<char>)
    ensures
        are_names(path::names_of(s)),
{
    assert forall|i: int, j: int|
        0 <= i < path::segments(s).len() && 0 <= j < path::segments(
            s,
        )[i].len() implies !path::is_separator(#[trigger] path::segments(s)[i][j]) by {
        lemma_segments_hold_no_separator(s, i, j);
    }
    lemma_walk_all_keeps_names(Seq::empty(), path::segments(s));
}

/// A key leads back to the names it was written from, so that different
/// sequences of names have different keys.
pub proof fn key_determines_its_names(names: Seq<Seq<char>>)
    requires
        are_names(names),
    ensures
        path::names_of(path::key_of(names)) == names,
{
    let none = Seq::<Seq<char>>::empty();
    if names.len() == 0 {
        let empty = Seq::<char>::empty();
        assert(path::root_key() =~= empty.push('/') + empty);
        lemma_segments_around_separator(empty, '/', empty);
        assert(path::segments(empty) =~= seq![empty]);
        assert(path::segments(path::root_key()) =~= seq![empty, empty]);
        lemma_walk_all_in_two_runs(none, seq![empty], seq![empty]);
        assert(seq![empty] + seq![empty] =~= seq![empty, empty]);
        lemma_walk_all_of_one(none, empty);
        assert(names =~= none);
    } else {
        let first = seq![Seq::<char>::empty()];
        lemma_segments_of_join(names);
        lemma_walk_all_in_two_runs(none, first, names);
        lemma_walk_all_of_one(none, Seq::empty());
        lemma_walk_all_of_names(none, names);
        assert(none + names =~= names);
    }
}

/// Normalising gives a key, and leaves a key as it is.
pub proof fn normalize_gives_keys_and_keeps_them(s: Seq<char>)
    ensures
        is_key(path::normalize(s)),
        is_key(s) ==> path::normalize(s) == s,
{
    names_of_a_path_are_names(s);
    if is_key(s) {
        let names = choose|names: Seq<Seq<char>>|
            are_names(names) && s == #[trigger] path::key_of(names);
        key_determines_its_names(names);
    }
}

/// Normalising twice is normalising once.
pub proof fn normalize_is_idempotent(s: Seq<char>)
    ensures
        path::normalize(path::normalize(s)) == path::normalize(s),
{
    normalize_gives_keys_and_keeps_them(s);
    normalize_gives_keys_and_keeps_them(path::normalize(s));
}

/// A path that goes on behind a separator denotes what its rest denotes from
/// the directory that its start denotes.
pub proof fn names_of_two_parts(a: Seq<char>, sep: char, b: Seq<char>)
    requires
        path::is_separator(sep),
    ensures
        path::names_of(a.push(sep) + b) == path::walk_all(path::names_of(a), path::segments(b)),
{
    lemma_segments_around_separator(a, sep, b);
    lemma_walk_all_in_two_runs(Seq::empty(), path::segments(a), path::segments(b));
}

/// A name is a path of one segment.
pub proof fn names_are_their_only_segment(name: Seq<char>)
    requires
        is_name(name),
    ensures
        path::segments(name) == seq![name],
{
    lemma_segments_of_one(name);
}

/// Walking a name goes one level down.
pub proof fn walking_a_name_adds_it(names: Seq<Seq<char>>, name: Seq<char>)
    requires
        is_name(name),
    ensures
        path::walk_all(names, seq![name]) == names.push(name),
{
    lemma_walk_all_of_one(names, name);
}

/// The characters of a key: it starts with `/`, holds no `\`, ends in `/`
/// only if it is the root's, and has no two slashes side by side.
pub proof fn key_has_single_forward_slashes(s: Seq<char>)
    ensures
        path::normalize(s).len() > 0,
        path::normalize(s)[0] == '/',
        forall|i: int| 0 <= i < path::normalize(s).len() ==> path::normalize(s)[i] != '\\',
        path::normalize(s).len() > 1 ==> path::normalize(s).last() != '/',
        forall|i: int|
            0 <= i < path::normalize(s).len() - 1 ==> !(#[trigger] path::normalize(s)[i] == '/'
                && path::normalize(s)[i + 1] == '/'),
{
    names_of_a_path_are_names(s);
    if path::names_of(s).len() > 0 {
        lemma_join_has_single_forward_slashes(path::names_of(s));
    }
}

proof fn lemma_join_has_single_forward_slashes(names: Seq<Seq<char>>)
    requires
        are_names(names),
    ensures
        names.len() > 0 ==> path::join(names).len() > 1,
        names.len() > 0 ==> path::join(names)[0] == '/',
        forall|i: int| 0 <= i < path::join(names).len() ==> path::join(names)[i] != '\\',
        path::join(names).len() > 0 ==> path::join(names).last() != '/',
        forall|i: int|
            0 <= i < path::join(names).len() - 1 ==> !(#[trigger] path::join(names)[i] == '/'
                && path::join(names)[i + 1] == '/'),
    decreases names.len(),
{
    if names.len() > 0 {
        let shorter = names.drop_last();
        assert forall|i: int| 0 <= i < shorter.len() implies is_name(#[trigger] shorter[i]) by {
            assert(shorter[i] == names[i]);
        }
        lemma_join_has_single_forward_slashes(shorter);
        let last = names.last();
        assert(is_name(names[names.len() - 1]));
        let start = path::join(shorter);
        let whole = path::join(names);
        assert(whole =~= start.push('/') + last);
        assert(whole.last() == last[last.len() - 1]);
        assert forall|i: int| 0 <= i < whole.len() implies whole[i] != '\\' by {
            if i > start.len() {
                assert(whole[i] == last[i - start.len() - 1]);
            }
        }
        assert forall|i: int| 0 <= i < whole.len() - 1 implies !(#[trigger] whole[i] == '/'
            && whole[i + 1] == '/') by {
            if i + 1 < start.len() {
                assert(whole[i] == start[i] && whole[i + 1] == start[i + 1]);
            } else if i + 1 > start.len() {
                assert(whole[i + 1] == last[i - start.len()]);
            }
        }
    }
}

/// The two slashes mean the same.
pub proof fn slashes_are_interchangeable(s: Seq<char>)
    ensures
        path::normalize(with_forward_slashes(s)) == path::normalize(s),
{
    lemma_segments_ignore_slash_direction(s);
}

proof fn lemma_segments_ignore_slash_direction(s: Seq<char>)
    ensures
        path::segments(with_forward_slashes(s)) == path::segments(s),
    decreases s.len(),
{
    let t = with_forward_slashes(s);
    if s.len() == 0 {
        assert(t =~= s);
    } else {
        lemma_segments_ignore_slash_direction(s.drop_last());
        assert(t.drop_last() =~= with_forward_slashes(s.drop_last()));
    }
}

/// A separator before a path changes nothing.
pub proof fn leading_separator_is_ignored(sep: char, s: Seq<char>)
    requires
        path::is_separator(sep),
    ensures
        path::normalize(seq![sep] + s) == path::normalize(s),
{
    let empty = Seq::<char>::empty();
    names_of_two_parts(empty, sep, s);
    assert(empty.push(sep) + s =~= seq![sep] + s);
    assert(path::segments(empty) =~= seq![empty]);
    lemma_walk_all_of_one(Seq::empty(), empty);
}

/// A separator behind a path changes nothing.
pub proof fn trailing_separator_is_ignored(s: Seq<char>, sep: char)
    requires
        path::is_separator(sep),
    ensures
        path::normalize(s.push(sep)) == path::normalize(s),
{
    let empty = Seq::<char>::empty();
    names_of_two_parts(s, sep, empty);
    assert(s.push(sep) + empty =~= s.push(sep));
    assert(path::segments(empty) =~= seq![empty]);
    lemma_walk_all_of_one(path::names_of(s), empty);
}

/// A second separator in a row changes nothing.
pub proof fn repeated_separator_is_ignored(a: Seq<char>, first: char, second: char, b: Seq<char>)
    requires
        path::is_separator(first),
        path::is_separator(second),
    ensures
        path::normalize(a.push(first).push(second) + b) == path::normalize(a.push(first) + b),
{
    trailing_separator_is_ignored(a, first);
    names_of_two_parts(a.push(first), second, b);
    names_of_two_parts(a, first, b);
    let empty = Seq::<char>::empty();
    names_of_two_parts(a, first, empty);
    assert(a.push(first) + empty =~= a.push(first));
    assert(path::segments(empty) =~= seq![empty]);
    lemma_walk_all_of_one(path::names_of(a), empty);
}

/// A `.` segment changes nothing.
pub proof fn dot_segment_is_ignored(a: Seq<char>, first: char, second: char, b: Seq<char>)
    requires
        path::is_separator(first),
        path::is_separator(second),
    ensures
        path::normalize((a.push(first) + path::dot()).push(second) + b) == path::normalize(
            a.push(first) + b,
        ),
{
    names_of_two_parts(a.push(first) + path::dot(), second, b);
    names_of_two_parts(a, first, path::dot());
    names_of_two_parts(a, first, b);
    lemma_segments_of_one(path::dot());
    lemma_walk_all_of_one(path::names_of(a), path::dot());
}

/// A `..` segment takes back the name before it.
pub proof fn dot_dot_segment_undoes_a_name(
    a: Seq<char>,
    first: char,
    name: Seq<char>,
    second: char,
    third: char,
    b: Seq<char>,
)
    requires
        path::is_separator(first),
        path::is_separator(second),
        path::is_separator(third),
        is_name(name),
    ensures
        path::normalize(
            ((a.push(first) + name).push(second) + path::dot_dot()).push(third) + b,
        ) == path::normalize(a.push(first) + b),
{
    let down = a.push(first) + name;
    let up = down.push(second) + path::dot_dot();
    names_of_two_parts(up, third, b);
    names_of_two_parts(down, second, path::dot_dot());
    names_of_two_parts(a, first, name);
    names_of_two_parts(a, first, b);
    lemma_segments_of_one(name);
    lemma_segments_of_one(path::dot_dot());
    lemma_walk_all_of_one(path::names_of(a), name);
    lemma_walk_all_of_one(path::names_of(down), path::dot_dot());
    assert(path::names_of(down).drop_last() =~= path::names_of(a));
}

/// A `..` segment at the root is dropped: no path reaches above the root.
pub proof fn dot_dot_segment_stops_at_the_root(
    a: Seq<char>,
    first: char,
    second: char,
    b: Seq<char>,
)
    requires
        path::is_separator(first),
        path::is_separator(second),
        path::normalize(a) == path::root_key(),
    ensures
        path::normalize((a.push(first) + path::dot_dot()).push(second) + b) == path::normalize(b),
{
    names_of_a_path_are_names(a);
    lemma_join_has_single_forward_slashes(path::names_of(a));
    assert(path::names_of(a) =~= Seq::empty());
    names_of_two_parts(a.push(first) + path::dot_dot(), second, b);
    names_of_two_parts(a, first, path::dot_dot());
    lemma_segments_of_one(path::dot_dot());
    lemma_walk_all_of_one(path::names_of(a), path::dot_dot());
}

/// `/` and `\` separate, and no other character does.
pub proof fn only_slashes_separate(c: char)
    ensures
        path::is_separator(c) <==> c == '/' || c == '\\',
{
}

/// The empty path, `.` and `..` are the root.
pub proof fn empty_and_dots_are_the_root()
    ensures
        path::normalize(Seq::empty()) == seq!['/'],
        path::normalize(seq!['.']) == seq!['/'],
        path::normalize(seq!['.', '.']) == seq!['/'],
{
    let none = Seq::<Seq<char>>::empty();
    let empty = Seq::<char>::empty();
    assert(path::segments(empty) =~= seq![empty]);
    lemma_walk_all_of_one(none, empty);
    lemma_segments_of_one(path::dot());
    lemma_walk_all_of_one(none, path::dot());
    lemma_segments_of_one(path::dot_dot());
    lemma_walk_all_of_one(none, path::dot_dot());
}

/// Text without slashes, unless it is empty, `.` or `..`, is a name, and its
/// key is `/` and that very text: nothing else in it is special, and nothing
/// of it is changed.
pub proof fn text_without_slashes_is_kept(name: Seq<char>)
    requires
        name.len() > 0,
        name != seq!['.'],
        name != seq!['.', '.'],
        forall|i: int| 0 <= i < name.len() ==> #[trigger] name[i] != '/' && name[i] != '\\',
    ensures
        path::normalize(name) == seq!['/'] + name,
{
    let none = Seq::<Seq<char>>::empty();
    names_are_their_only_segment(name);
    walking_a_name_adds_it(none, name);
    assert(none.push(name).drop_last() =~= none);
    assert(path::join(none) =~= Seq::<char>::empty());
    assert(path::normalize(name) =~= seq!['/'] + name);
}

/// A name behind a slash goes one level down: its key is the key of what
/// stands before the slash, a `/` unless that is the root, and that very
/// name.
pub proof fn name_behind_a_slash_goes_down(a: Seq<char>, sep: char, name: Seq<char>)
    requires
        sep == '/' || sep == '\\',
        name.len() > 0,
        name != seq!['.'],
        name != seq!['.', '.'],
        forall|i: int| 0 <= i < name.len() ==> #[trigger] name[i] != '/' && name[i] != '\\',
    ensures
        path::normalize(a.push(sep) + name) == (if path::normalize(a) == seq!['/'] {
            seq!['/'] + name
        } else {
            path::normalize(a).push('/') + name
        }),
{
    let names = path::names_of(a);
    names_of_two_parts(a, sep, name);
    names_are_their_only_segment(name);
    walking_a_name_adds_it(names, name);
    names_of_a_path_are_names(a);
    assert(names.push(name).drop_last() =~= names);
    lemma_join_has_single_forward_slashes(names);
    if names.len() == 0 {
        assert(path::join(names) =~= Seq::<char>::empty());
        assert(path::normalize(a.push(sep) + name) =~= seq!['/'] + name);
    } else {
        assert(path::normalize(a).len() > 1);
    }
}

/// A slash, or a slash and a `.`, at the end of a path change nothing.
pub proof fn slash_or_dot_at_the_end_stays(a: Seq<char>, sep: char)
    requires
        sep == '/' || sep == '\\',
    ensures
        path::normalize(a.push(sep)) == path::normalize(a),
        path::normalize(a.push(sep) + seq!['.']) == path::normalize(a),
{
    trailing_separator_is_ignored(a, sep);
    names_of_two_parts(a, sep, path::dot());
    lemma_segments_of_one(path::dot());
    lemma_walk_all_of_one(path::names_of(a), path::dot());
}

/// A slash and `..` at the end of a path go one level up: the last name of the
/// key goes, and at the root nothing happens.
pub proof fn dot_dot_at_the_end_goes_up(
    a: Seq<char>,
    sep: char,
    above: Seq<char>,
    name: Seq<char>,
)
    requires
        sep == '/' || sep == '\\',
        name.len() > 0,
        forall|i: int| 0 <= i < name.len() ==> #[trigger] name[i] != '/',
        path::normalize(a) == above.push('/') + name,
    ensures
        path::normalize(a.push(sep) + seq!['.', '.']) == (if above.len() == 0 {
            seq!['/']
        } else {
            above
        }),
{
    let names = path::names_of(a);
    names_of_two_parts(a, sep, path::dot_dot());
    lemma_segments_of_one(path::dot_dot());
    lemma_walk_all_of_one(names, path::dot_dot());
    names_of_a_path_are_names(a);
    assert(path::normalize(a).len() > 1);
    assert(names.len() > 0);
    let shorter = names.drop_last();
    let last = names.last();
    assert forall|i: int| 0 <= i < shorter.len() implies is_name(#[trigger] shorter[i]) by {
        assert(shorter[i] == names[i]);
    }
    assert(is_name(names[names.len() - 1]));
    let key = path::normalize(a);
    let start = path::join(shorter);
    assert(key =~= start.push('/') + last);
    assert(key.len() == start.len() + 1 + last.len() && key.len() == above.len() + 1 + name.len());
    if start.len() < above.len() {
        assert(key[above.len() as int] == '/');
        assert(key[above.len() as int] == last[above.len() - start.len() - 1]);
    }
    if above.len() < start.len() {
        assert(key[start.len() as int] == '/');
        assert(key[start.len() as int] == name[start.len() - above.len() - 1]);
    }
    assert(above =~= key.take(above.len() as int));
    assert(start =~= key.take(start.len() as int));
    lemma_join_has_single_forward_slashes(shorter);
}

/// A slash and `..` at the end of a path that is the root stay at the root.
pub proof fn dot_dot_at_the_end_stays_at_the_root(a: Seq<char>, sep: char)
    requires
        sep == '/' || sep == '\\',
        path::normalize(a) == seq!['/'],
    ensures
        path::normalize(a.push(sep) + seq!['.', '.']) == seq!['/'],
{
    names_of_two_parts(a, sep, path::dot_dot());
    lemma_segments_of_one(path::dot_dot());
    lemma_walk_all_of_one(path::names_of(a), path::dot_dot());
    names_of_a_path_are_names(a);
    lemma_join_has_single_forward_slashes(path::names_of(a));
    assert(path::names_of(a) =~= Seq::empty());
}

/// Different names in one directory have different keys.
pub proof fn different_names_have_different_keys(
    a: Seq<char>,
    sep: char,
    name: Seq<char>,
    other: Seq<char>,
)
    requires
        sep == '/' || sep == '\\',
        name != other,
        name.len() > 0,
        name != seq!['.'],
        name != seq!['.', '.'],
        forall|i: int| 0 <= i < name.len() ==> #[trigger] name[i] != '/' && name[i] != '\\',
        other.len() > 0,
        other != seq!['.'],
        other != seq!['.', '.'],
        forall|i: int| 0 <= i < other.len() ==> #[trigger] other[i] != '/' && other[i] != '\\',
    ensures
        path::normalize(a.push(sep) + name) != path::normalize(a.push(sep) + other),
{
    name_behind_a_slash_goes_down(a, sep, name);
    name_behind_a_slash_goes_down(a, sep, other);
    let start = if path::normalize(a) == seq!['/'] {
        seq!['/']
    } else {
        path::normalize(a).push('/')
    };
    assert((start + name).skip(start.len() as int) =~= name);
    assert((start + other).skip(start.len() as int) =~= other);
}

} // verus!
