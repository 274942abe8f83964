//! Building strings.

use vstd::prelude::*;

verus! {

/// `String::push` appends one character at the end of the string and
/// changes nothing else in it.
pub assume_specification[ String::push ](s: &mut String, c: char)
    ensures
        final(s)@ == old(s)@.push(c),
;

/// The characters of each string of `strings`.
pub open spec fn texts(strings: Seq<String>) -> Seq<Seq<char>> {
    strings.map_values(|s: String| s@)
}

/// There is one text for each string, at its place, with all its characters.
pub proof fn texts_keep_every_character(strings: Seq<String>)
    ensures
        texts(strings).len() == strings.len(),
        forall|i: int| 0 <= i < strings.len() ==> texts(strings)[i] == (#[trigger] strings[i])@,
{
}

} // verus!
