//! Changing the case of names: camel case from the `heck` crate, and ASCII
//! upper case.
use vstd::prelude::*;
use heck::{ToLowerCamelCase, ToUpperCamelCase};

verus! {

/// The UpperCamelCase form of a name, as `heck` computes it.
pub uninterp spec fn upper_camel_case(s: Seq<char>) -> Seq<char>;

/// The lowerCamelCase form of a name, as `heck` computes it.
pub uninterp spec fn lower_camel_case(s: Seq<char>) -> Seq<char>;

/// `heck::ToUpperCamelCase::to_upper_camel_case` on a string slice; its
/// result is named `upper_camel_case` of the input, and nothing more is
/// claimed of it.
#[verifier::external_body]
pub(crate) fn to_upper_camel_case(s: &str) -> (r: String)
    ensures
        r@ == upper_camel_case(s@),
{
    s.to_upper_camel_case()
}

/// `heck::ToLowerCamelCase::to_lower_camel_case` on a string slice; its
/// result is named `lower_camel_case` of the input, and nothing more is
/// claimed of it.
#[verifier::external_body]
pub(crate) fn to_lower_camel_case(s: &str) -> (r: String)
    ensures
        r@ == lower_camel_case(s@),
{
    s.to_lower_camel_case()
}

/// A character with the ASCII letters `a` to `z` mapped to `A` to `Z`.
pub open spec fn ascii_upper_char(c: char) -> char {
    if 'a' <= c && c <= 'z' {
        ((c as u32) - 32) as char
    } else {
        c
    }
}

/// A string with its ASCII lower-case letters made upper-case; every other
/// character is kept.
pub open spec fn ascii_upper(s: Seq<char>) -> Seq<char> {
    s.map_values(|c: char| ascii_upper_char(c))
}

/// `str::to_ascii_uppercase`: as its documentation says, the ASCII letters
/// `a` to `z` become `A` to `Z` and every other character is kept.
#[verifier::external_body]
pub(crate) fn to_ascii_uppercase(s: &str) -> (r: String)
    ensures
        r@ == ascii_upper(s@),
{
    s.to_ascii_uppercase()
}

} // verus!
