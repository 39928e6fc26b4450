//! Contracts for the `String` methods that the library calls and that vstd
//! does not specify.
use vstd::prelude::*;

verus! {

/// `String::push` (std): appends the character `ch` to the end of `s`.
/// Trusted: the contract states that the string's characters afterwards are
/// its characters before followed by `ch`, as std's documentation says.
pub assume_specification[ std::string::String::push ](s: &mut std::string::String, ch: char)
    ensures
        final(s)@ == old(s)@.push(ch),
;

} // verus!
