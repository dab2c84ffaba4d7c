//! Small text helpers over `std` operations that vstd leaves unspecified.

use vstd::prelude::*;

verus! {

/// Relies on `str`'s `PartialEq`: two string slices are equal exactly when
/// they hold the same characters.
#[verifier::external_body]
pub fn str_eq(a: &str, b: &str) -> (r: bool)
    ensures
        r == (a@ == b@),
{
    a == b
}

/// Relies on `char::to_string` from `std`: the string holding exactly the
/// one given character.
#[verifier::external_body]
pub fn char_to_string(c: char) -> (r: String)
    ensures
        r@ == seq![c],
{
    c.to_string()
}

/// Relies on `String::from_utf8` from `std`: it succeeds exactly on valid
/// UTF-8 input, and the returned string holds the decoded characters.
#[verifier::external_body]
pub fn utf8_to_string(bytes: Vec<u8>) -> (r: Option<String>)
    ensures
        (r is Some) == vstd::utf8::valid_utf8(bytes@),
        r is Some ==> r.unwrap()@ == vstd::utf8::decode_utf8(bytes@),
{
    String::from_utf8(bytes).ok()
}

} // verus!
