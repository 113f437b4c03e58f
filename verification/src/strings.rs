//! Contracts for the two methods of `String` that build the text renderings.
use vstd::prelude::*;

verus! {

/// `String::push` of std, which vstd leaves without a contract. std documents
/// that it appends the given character to the end of the string.
pub assume_specification[ String::push ](s: &mut String, ch: char)
    ensures
        final(s)@ == old(s)@.push(ch),
;

/// `String::push_str` of std, which vstd leaves without a contract. std
/// documents that it appends the given string slice onto the end of the string.
pub assume_specification[ String::push_str ](s: &mut String, string: &str)
    ensures
        final(s)@ == old(s)@ + string@,
;

} // verus!
