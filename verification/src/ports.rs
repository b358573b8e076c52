//! Outside capabilities the simulation depends on: the wall clock, a source
//! of randomness for cosmetic message variety, and UTF-8 decoding.

use vstd::prelude::*;

verus! {

/// Relies on chrono::Utc::now and chrono::DateTime::timestamp: the current
/// wall-clock moment as whole seconds since the Unix epoch. Nothing is
/// promised of the reading; callers state what holds of every value.
#[verifier::external_body]
pub(crate) fn clock_now_seconds() -> i64 {
    chrono::Utc::now().timestamp()
}

/// Relies on rand::random_range: a uniformly chosen index strictly below
/// `n`. The precondition keeps the range non-empty, so the call cannot
/// panic; which index comes back is not promised.
#[verifier::external_body]
pub(crate) fn pick_index(n: usize) -> (r: usize)
    requires
        1 <= n,
    ensures
        r < n,
{
    rand::random_range(0..n)
}

/// Relies on String::from_utf8: succeeds exactly on valid UTF-8 and then
/// returns the character sequence those bytes encode.
#[verifier::external_body]
pub(crate) fn bytes_to_string(bytes: Vec<u8>) -> (r: Option<String>)
    ensures
        match r {
            Some(s) => vstd::utf8::valid_utf8(bytes@) && s@ == vstd::utf8::decode_utf8(bytes@),
            None => !vstd::utf8::valid_utf8(bytes@),
        },
{
    String::from_utf8(bytes).ok()
}

} // verus!
