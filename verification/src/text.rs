//! Conversions between owned strings and their character sequences, so that
//! the record codec can work character by character.

use vstd::prelude::*;

verus! {

/// Relies on `str::chars` and `Iterator::collect`: the collected vector holds
/// exactly the characters of the string, in order.
#[verifier::external_body]
pub fn chars_of_str(s: &str) -> (r: Vec<char>)
    ensures
        r@ == s@,
{
    s.chars().collect()
}

/// Relies on `Iterator::collect` for `String`: a string collected from
/// characters holds exactly those characters, in order.
#[verifier::external_body]
pub fn string_from_chars(v: &Vec<char>) -> (r: String)
    ensures
        r@ == v@,
{
    v.iter().collect()
}

} // verus!
