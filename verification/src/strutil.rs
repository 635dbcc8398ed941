//! Small string-building helpers shared by the filter and the flat-file
//! codec.

use vstd::prelude::*;

verus! {

/// Relies on std's `String::push`: appends exactly one character at the end
/// of the string.
#[verifier::external_body]
pub fn push_char(s: &mut String, c: char)
    ensures
        final(s)@ == old(s)@.push(c),
{
    s.push(c);
}

} // verus!
