//! Character classification, delegated to std's Unicode tables.
//!
//! The exact extent of the Unicode classes is not written out here; each
//! class gets an opaque name, pinned down on the ASCII range where the
//! documentation is explicit.

use vstd::prelude::*;

verus! {

/// Whether `c` is alphanumeric in the Unicode sense of `char::is_alphanumeric`.
pub uninterp spec fn char_alphanumeric(c: char) -> bool;

/// Whether `c` is numeric in the Unicode sense of `char::is_numeric`.
pub uninterp spec fn char_numeric(c: char) -> bool;

/// Whether `c` is alphabetic in the Unicode sense of `char::is_alphabetic`.
pub uninterp spec fn char_alphabetic(c: char) -> bool;

/// Whether `c` is an ASCII digit or an ASCII letter.
pub open spec fn ascii_alphanumeric(c: char) -> bool {
    ascii_digit(c) || ascii_letter(c)
}

/// Whether `c` is one of '0' ..= '9'.
pub open spec fn ascii_digit(c: char) -> bool {
    ('0' as u32) <= (c as u32) && (c as u32) <= ('9' as u32)
}

/// Whether `c` is one of 'a' ..= 'z' or 'A' ..= 'Z'.
pub open spec fn ascii_letter(c: char) -> bool {
    (('a' as u32) <= (c as u32) && (c as u32) <= ('z' as u32)) || (('A' as u32) <= (c as u32)
        && (c as u32) <= ('Z' as u32))
}

/// Relies on `char::is_alphanumeric` (Unicode `Alphabetic`, `Nd`, `Nl` or
/// `No`); on the ASCII range that class holds exactly for letters and digits.
#[verifier::external_body]
pub fn is_alphanumeric_char(c: char) -> (r: bool)
    ensures
        r == char_alphanumeric(c),
        (c as u32) < 128 ==> r == ascii_alphanumeric(c),
{
    c.is_alphanumeric()
}

/// Relies on `char::is_numeric` (Unicode `Nd`, `Nl` or `No`); on the ASCII
/// range that class holds exactly for the digits.
#[verifier::external_body]
pub fn is_numeric_char(c: char) -> (r: bool)
    ensures
        r == char_numeric(c),
        (c as u32) < 128 ==> r == ascii_digit(c),
{
    c.is_numeric()
}

/// Relies on `char::is_alphabetic` (Unicode `Alphabetic`); on the ASCII range
/// that class holds exactly for the letters.
#[verifier::external_body]
pub fn is_alphabetic_char(c: char) -> (r: bool)
    ensures
        r == char_alphabetic(c),
        (c as u32) < 128 ==> r == ascii_letter(c),
{
    c.is_alphabetic()
}

/// Relies on `str`'s `PartialEq`: two string slices are equal exactly when
/// their character sequences are.
#[verifier::external_body]
pub fn str_eq(a: &str, b: &str) -> (r: bool)
    ensures
        r == (a@ == b@),
{
    a == b
}

} // verus!
