//! Texts as sequences of characters: the conversions and comparisons that the rest of the
//! library is built on.

use vstd::prelude::*;
use vstd::slice::slice_subrange;

verus! {

/// Collects the characters of a text.
pub fn chars_of(text: &str) -> (chars: Vec<char>)
    ensures
        chars@ == text@,
{
    broadcast use vstd::string::group_string_axioms;

    let mut chars: Vec<char> = Vec::new();
    for c in iter: text.chars()
        invariant
            iter.seq() == text@,
            chars@ == iter.seq().take(iter.index() as int),
    {
        chars.push(c);
    }
    chars
}

/// Whether two texts hold the same characters.
pub fn same_chars(left: &[char], right: &[char]) -> (same: bool)
    ensures
        same == (left@ == right@),
{
    if left.len() != right.len() {
        return false;
    }
    let mut i: usize = 0;
    while i < left.len()
        invariant
            left.len() == right.len(),
            i <= left.len(),
            forall|j: int| 0 <= j < i ==> left[j] == right[j],
        decreases left.len() - i,
    {
        if left[i] != right[i] {
            return false;
        }
        i += 1;
    }
    assert(left@ =~= right@);
    true
}

/// Whether `text` begins with `prefix`.
pub fn starts_with(text: &[char], prefix: &[char]) -> (found: bool)
    ensures
        found == prefix@.is_prefix_of(text@),
{
    if prefix.len() > text.len() {
        return false;
    }
    same_chars(slice_subrange(text, 0, prefix.len()), prefix)
}

/// The part of `text` from position `from` on.
pub fn skip_chars(text: &[char], from: usize) -> (rest: &[char])
    requires
        from <= text.len(),
    ensures
        rest@ == text@.skip(from as int),
{
    slice_subrange(text, from, text.len())
}

/// The first `count` characters of `text`.
pub fn take_chars(text: &[char], count: usize) -> (head: &[char])
    requires
        count <= text.len(),
    ensures
        head@ == text@.take(count as int),
{
    slice_subrange(text, 0, count)
}

} // verus!
