//! The calls into std's character and string routines that the scanner uses.
use vstd::prelude::*;
use crate::model::{alphabetic_of, is_letter};

verus! {

/// Relies on `char::is_alphabetic`: among ASCII characters only the letters
/// `a`-`z` and `A`-`Z` have the Unicode Alphabetic property; beyond ASCII the
/// answer depends on the character alone.
#[verifier::external_body]
pub(crate) fn char_is_alphabetic(c: char) -> (r: bool)
    ensures
        r == is_letter(c),
        (c as u32) >= 128 ==> r == alphabetic_of(c),
{
    c.is_alphabetic()
}

/// Relies on `String::push`: appends the character to the end of the string.
#[verifier::external_body]
pub(crate) fn push_char(s: &mut String, c: char)
    ensures
        final(s)@ == old(s)@.push(c),
{
    s.push(c);
}

} // verus!
