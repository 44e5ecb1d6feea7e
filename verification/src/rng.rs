//! Draws of fresh random values, taken from the process-wide generator.

use vstd::prelude::*;

verus! {

/// Relies on rand::random::<u64>: a value drawn from the thread-local
/// generator; nothing is promised of it.
#[verifier::external_body]
pub(crate) fn random_u64() -> u64 {
    rand::random()
}

/// Relies on rand::random::<bool>: a coin flip drawn from the thread-local
/// generator; nothing is promised of it.
#[verifier::external_body]
pub(crate) fn random_bool() -> bool {
    rand::random()
}

} // verus!
