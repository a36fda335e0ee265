//! The random source. Nothing here is proved: each function hands one call
//! to the `rand` crate and states what that call is documented to return.

use rand::distributions::Alphanumeric;
use rand::distributions::DistString;
use rand::Rng;
use vstd::prelude::*;

verus! {

/// ASCII letters and digits.
pub open spec fn is_alphanumeric(c: char) -> bool {
    ||| '0' <= c <= '9'
    ||| 'A' <= c <= 'Z'
    ||| 'a' <= c <= 'z'
}

/// `rand::random::<u8>()`. Every byte is a possible outcome, so nothing is
/// claimed of the result.
#[verifier::external_body]
pub(crate) fn random_channel() -> (channel: u8) {
    rand::random()
}

/// `Rng::gen_range(0..bound)` on the thread's generator. The call panics on
/// an empty range, hence the precondition; the result lies in the range.
#[verifier::external_body]
pub(crate) fn random_below(bound: usize) -> (index: usize)
    requires
        bound > 0,
    ensures
        index < bound,
{
    rand::thread_rng().gen_range(0..bound)
}

/// `Alphanumeric.sample_string(rng, len)` on the thread's generator: a string
/// of `len` characters, each an ASCII letter or digit.
#[verifier::external_body]
pub(crate) fn random_letters(len: usize) -> (text: String)
    ensures
        text@.len() == len,
        forall|i: int| 0 <= i < len ==> is_alphanumeric(#[trigger] text@[i]),
{
    Alphanumeric.sample_string(&mut rand::thread_rng(), len)
}

} // verus!
