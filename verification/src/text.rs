//! Small string-building helpers shared by the codec and the parsers.

use vstd::prelude::*;

verus! {

/// Relies on String::push: appends exactly one character.
#[verifier::external_body]
pub fn push_char(s: &mut String, c: char)
    ensures
        final(s)@ == old(s)@.push(c),
{
    s.push(c);
}

/// Relies on String::insert: inserting at byte offset 0 puts the
/// character in front of the existing text.
#[verifier::external_body]
pub fn prepend_char(s: &mut String, c: char)
    ensures
        final(s)@ == seq![c] + old(s)@,
{
    s.insert(0, c);
}

} // verus!
