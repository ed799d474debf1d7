//! Contracts for the pieces of std's string handling that the renderer
//! uses and vstd does not cover.
use vstd::prelude::*;

verus! {

/// Relies on alloc's `String::push`, which appends the given character to
/// the end of the string.
pub assume_specification[ String::push ](s: &mut String, ch: char)
    ensures
        final(s)@ == old(s)@.push(ch),
;

} // verus!
