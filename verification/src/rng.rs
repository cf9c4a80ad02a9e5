//! The random source for the random-byte instruction.

use vstd::prelude::*;

verus! {

/// Relies on rand::random: draws a value from the thread-local generator,
/// uniformly distributed over all of u16.  Nothing can be promised of a
/// random value, so the contract is empty; the executor states what holds
/// of every outcome.
#[verifier::external_body]
pub(crate) fn random_u16() -> u16 {
    rand::random::<u16>()
}

} // verus!
