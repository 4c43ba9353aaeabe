//! The library's only source of randomness: the thread-local generator of
//! the `rand` crate. Nothing is proved about the values drawn beyond their
//! range, and two draws are never assumed to agree.
//!
//! The generator is seeded from the operating system the first time a thread
//! uses it and panics if that seeding fails; no argument of the functions
//! below has any part in that.

use rand::Rng;
use vstd::prelude::*;

verus! {

/// Calls `rand::random::<u64>()`. Any 64-bit value may come back, so the
/// contract promises nothing about the result.
#[verifier::external_body]
pub(crate) fn random_u64() -> (r: u64) {
    rand::random::<u64>()
}

/// Calls `rand::thread_rng().gen_range(low..high)`. The call panics on an
/// empty range, which `requires` rules out; the value drawn lies in
/// `[low, high)`.
#[verifier::external_body]
pub(crate) fn random_in_range(low: u64, high: u64) -> (r: u64)
    requires
        low < high,
    ensures
        low <= r < high,
{
    rand::thread_rng().gen_range(low..high)
}

} // verus!
