//! The order in which staged paths are kept: strings compare by the code
//! points of their characters, first difference first, and a proper prefix
//! comes before what it is a prefix of.

use vstd::prelude::*;

verus! {

/// How one string stands to another in path order.
#[derive(Debug, Clone, Copy, PartialEq, Eq, Structural)]
pub enum Collation {
    Before,
    Same,
    After,
}

/// `a` and `b` agree on their first `i` characters, and at `i` either `a`
/// has ended or its character is the smaller one.
pub open spec fn splits_at(a: Seq<char>, b: Seq<char>, i: int) -> bool {
    &&& 0 <= i <= a.len()
    &&& i < b.len()
    &&& forall|j: int| 0 <= j < i ==> a[j] == b[j]
    &&& i == a.len() || (a[i] as int) < (b[i] as int)
}

/// `a` comes strictly before `b` in path order.
pub open spec fn precedes(a: Seq<char>, b: Seq<char>) -> bool {
    exists|i: int| splits_at(a, b, i)
}

/// The keys stand in strictly increasing path order.
pub open spec fn ascending(keys: Seq<Seq<char>>) -> bool {
    forall|i: int, j: int|
        #![trigger keys[i], keys[j]]
        0 <= i < j < keys.len() ==> precedes(keys[i], keys[j])
}

/// No string comes before itself.
pub proof fn precedes_is_irreflexive(a: Seq<char>)
    ensures
        !precedes(a, a),
{
}

/// What comes before something that comes before a third string comes
/// before the third string.
pub proof fn precedes_is_transitive(a: Seq<char>, b: Seq<char>, c: Seq<char>)
    requires
        precedes(a, b),
        precedes(b, c),
    ensures
        precedes(a, c),
{
    let i = choose|i: int| splits_at(a, b, i);
    let j = choose|j: int| splits_at(b, c, j);
    if i <= j {
        assert(splits_at(a, c, i));
    } else {
        assert(splits_at(a, c, j));
    }
}

/// A string that comes before another differs from it, and the other does
/// not come before it.
pub proof fn precedes_is_asymmetric(a: Seq<char>, b: Seq<char>)
    requires
        precedes(a, b),
    ensures
        a != b,
        !precedes(b, a),
{
    if precedes(b, a) {
        precedes_is_transitive(a, b, a);
    }
}

/// Of two different strings one comes before the other.
pub proof fn precedes_is_total(a: Seq<char>, b: Seq<char>)
    requires
        a != b,
    ensures
        precedes(a, b) || precedes(b, a),
{
    lemma_total_from(a, b, 0);
}

proof fn lemma_total_from(a: Seq<char>, b: Seq<char>, i: int)
    requires
        a != b,
        0 <= i <= a.len(),
        i <= b.len(),
        forall|j: int| 0 <= j < i ==> a[j] == b[j],
    ensures
        precedes(a, b) || precedes(b, a),
    decreases a.len() - i,
{
    if i == a.len() {
        if i == b.len() {
            assert(a =~= b);
        }
        assert(splits_at(a, b, i));
    } else if i == b.len() {
        assert(splits_at(b, a, i));
    } else if a[i] == b[i] {
        lemma_total_from(a, b, i + 1);
    } else if (a[i] as int) < (b[i] as int) {
        assert(splits_at(a, b, i));
    } else {
        assert(splits_at(b, a, i));
    }
}

/// A common prefix does not change the order.
pub proof fn precedes_ignores_common_prefix(p: Seq<char>, a: Seq<char>, b: Seq<char>)
    ensures
        precedes(p + a, p + b) <==> precedes(a, b),
{
    if precedes(a, b) {
        let i = choose|i: int| splits_at(a, b, i);
        assert(splits_at(p + a, p + b, p.len() + i));
    }
    if precedes(p + a, p + b) {
        let i = choose|i: int| splits_at(p + a, p + b, i);
        if i < p.len() {
            assert((p + a)[i] == (p + b)[i]);
        }
        assert forall|j: int| 0 <= j < i - p.len() implies a[j] == b[j] by {
            assert((p + a)[p.len() + j] == (p + b)[p.len() + j]);
        }
        assert(splits_at(a, b, i - p.len()));
    }
}

/// Behind a common start, the string with the smaller code point comes
/// first, whatever follows.
pub proof fn smaller_code_point_comes_first(
    p: Seq<char>,
    x: char,
    a: Seq<char>,
    y: char,
    b: Seq<char>,
)
    requires
        (x as int) < (y as int),
    ensures
        precedes(p.push(x) + a, p.push(y) + b),
        !precedes(p.push(y) + b, p.push(x) + a),
{
    let one = p.push(x) + a;
    let other = p.push(y) + b;
    assert(splits_at(one, other, p.len() as int));
    precedes_is_asymmetric(one, other);
}

/// A string comes before every longer string that starts with it.
pub proof fn start_comes_first(p: Seq<char>, x: char, a: Seq<char>)
    ensures
        precedes(p, p.push(x) + a),
        !precedes(p.push(x) + a, p),
{
    assert(splits_at(p, p.push(x) + a, p.len() as int));
    precedes_is_asymmetric(p, p.push(x) + a);
}

/// Where two strings in order first differ, the earlier one has ended or has
/// the smaller code point; the later one is no start of the earlier one.
pub proof fn first_difference_decides(a: Seq<char>, b: Seq<char>, n: int)
    requires
        precedes(a, b),
        0 <= n <= a.len(),
        n <= b.len(),
        forall|m: int| 0 <= m < n ==> a[m] == b[m],
        n < a.len() && n < b.len() ==> a[n] != b[n],
    ensures
        n < b.len(),
        n < a.len() ==> (a[n] as int) < (b[n] as int),
{
    let i = choose|i: int| splits_at(a, b, i);
    if i < n {
        assert(a[i] == b[i]);
    } else if n < i {
        assert(a[n] == b[n]);
    }
}

/// A vector of keys is in ascending order exactly when each key comes before
/// all that stand behind it.
pub proof fn ascending_orders_every_pair(keys: Seq<Seq<char>>)
    ensures
        ascending(keys) <==> forall|i: int, j: int|
            #![trigger keys[i], keys[j]]
            0 <= i < j < keys.len() ==> precedes(keys[i], keys[j]),
{
}

/// Compares two strings in path order.
pub fn collate(a: &str, b: &str) -> (c: Collation)
    ensures
        c == Collation::Before <==> precedes(a@, b@),
        c == Collation::Same <==> a@ == b@,
        c == Collation::After <==> precedes(b@, a@),
{
    let mut rest_a = a.chars();
    let mut rest_b = b.chars();
    let ghost mut i: int = 0;
    loop
        invariant
            0 <= i <= a@.len(),
            i <= b@.len(),
            forall|j: int| 0 <= j < i ==> a@[j] == b@[j],
            vstd::std_specs::iter::IteratorSpec::remaining(&rest_a) == a@.skip(i),
            vstd::std_specs::iter::IteratorSpec::remaining(&rest_b) == b@.skip(i),
        decreases a@.len() - i,
    {
        proof {
            if precedes(a@, b@) {
                precedes_is_asymmetric(a@, b@);
            }
            if precedes(b@, a@) {
                precedes_is_asymmetric(b@, a@);
            }
        }
        match (rest_a.next(), rest_b.next()) {
            (None, None) => {
                assert(a@ =~= b@);
                return Collation::Same;
            },
            (None, Some(_)) => {
                assert(splits_at(a@, b@, i));
                return Collation::Before;
            },
            (Some(_), None) => {
                assert(splits_at(b@, a@, i));
                return Collation::After;
            },
            (Some(x), Some(y)) => {
                assert(x == a@[i] && y == b@[i]);
                if x < y {
                    assert(splits_at(a@, b@, i));
                    return Collation::Before;
                }
                if y < x {
                    assert(splits_at(b@, a@, i));
                    return Collation::After;
                }
                proof {
                    assert(a@.skip(i).drop_first() =~= a@.skip(i + 1));
                    assert(b@.skip(i).drop_first() =~= b@.skip(i + 1));
                    i = i + 1;
                }
            },
        }
    }
}

} // verus!
