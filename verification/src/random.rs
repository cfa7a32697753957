//! The two places where the relay asks for chance: the jitter of the
//! heartbeat and the characters of a nonce.

use rand::Rng;
use vstd::prelude::*;

verus! {

/// The ASCII letters and digits.
pub open spec fn is_alphanumeric(b: u8) -> bool {
    ||| 0x30 <= b <= 0x39
    ||| 0x41 <= b <= 0x5a
    ||| 0x61 <= b <= 0x7a
}

/// The characters that are ASCII letters or digits.
pub open spec fn is_ascii_alphanumeric(c: char) -> bool {
    (c as u32) < 0x80 && is_alphanumeric(c as u8)
}

/// A number drawn from `low..high`.
///
/// Trusted: calls `rand::Rng::gen_range` on `rand::thread_rng()` with the
/// half-open range `low..high`. The call panics on an empty range, which
/// the precondition leaves out. The contract claims only that the number
/// lies in the range, which holds of every draw.
#[verifier::external_body]
pub(crate) fn random_between(low: u64, high: u64) -> (r: u64)
    requires
        low < high,
    ensures
        low <= r < high,
{
    rand::thread_rng().gen_range(low..high)
}

/// One character drawn from the ASCII letters and digits.
///
/// Trusted: calls `rand::Rng::sample` on `rand::thread_rng()` with
/// `rand::distributions::Alphanumeric`, which picks a byte out of `A-Z`,
/// `a-z` and `0-9`. The contract claims only that the byte is one of
/// these, which holds of every draw.
#[verifier::external_body]
pub(crate) fn random_alphanumeric() -> (b: u8)
    ensures
        is_alphanumeric(b),
{
    rand::thread_rng().sample(rand::distributions::Alphanumeric)
}

} // verus!
