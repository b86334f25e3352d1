//! Randomness from the `rand` crate, and the one `String` operation that the
//! seed generator needs.

use rand::Rng;
use vstd::prelude::*;

verus! {

/// Calls `rand::Rng::gen_range` on the thread's generator. Trusted: the
/// result lies in `low..high`; the call panics on an empty range, which the
/// precondition leaves out. Two calls may differ.
#[verifier::external_body]
pub(crate) fn random_in_range(low: u8, high: u8) -> (value: u8)
    requires
        low < high,
    ensures
        low <= value < high,
{
    rand::thread_rng().gen_range(low..high)
}

/// Calls `rand::Rng::gen` on the thread's generator for a `usize`. Nothing
/// is promised of the result.
#[verifier::external_body]
pub(crate) fn random_usize() -> usize {
    rand::thread_rng().gen()
}

/// Calls `String::push`. Trusted: the character is appended.
#[verifier::external_body]
pub(crate) fn push_char(text: &mut String, c: char)
    ensures
        final(text)@ == old(text)@.push(c),
{
    text.push(c)
}

} // verus!
