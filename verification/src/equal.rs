//! Equality of texts and of byte strings, by what they hold.

use vstd::prelude::*;

verus! {

/// Whether two byte slices hold the same bytes.
pub fn same_bytes(left: &[u8], right: &[u8]) -> (same: bool)
    ensures
        same == (left@ == right@),
{
    if left.len() != right.len() {
        return false;
    }
    let mut at: usize = 0;
    while at < left.len()
        invariant
            left@.len() == right@.len(),
            at <= left@.len(),
            left@.subrange(0, at as int) == right@.subrange(0, at as int),
        decreases left@.len() - at,
    {
        if left[at] != right[at] {
            return false;
        }
        proof {
            assert(left@.subrange(0, at + 1) == left@.subrange(0, at as int).push(left@[at as int]));
            assert(right@.subrange(0, at + 1) == right@.subrange(0, at as int).push(
                right@[at as int],
            ));
        }
        at += 1;
    }
    proof {
        assert(left@.subrange(0, at as int) == left@);
        assert(right@.subrange(0, at as int) == right@);
    }
    true
}

/// Whether two texts hold the same characters.
pub fn same_text(left: &str, right: &str) -> (same: bool)
    ensures
        same == (left@ == right@),
{
    left.to_owned() == right.to_owned()
}

} // verus!
