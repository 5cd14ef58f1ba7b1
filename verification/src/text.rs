use vstd::prelude::*;

verus! {

/// Appends a character with `String::push` of std. Not proved: that the string is
/// then the old one with `c` at its end.
#[verifier::external_body]
pub(crate) fn push_char(s: &mut String, c: char)
    ensures
        final(s)@ == old(s)@.push(c),
{
    s.push(c)
}

} // verus!
