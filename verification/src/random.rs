//! The secure random source: the operating system's generator, as the `ring`
//! crate reaches it.

use vstd::prelude::*;

verus! {

#[verifier::external_type_specification]
#[verifier::external_body]
pub struct ExSystemRandom(ring::rand::SystemRandom);

/// `ring::rand::SystemRandom::new`, which always succeeds and reads nothing.
pub assume_specification[ ring::rand::SystemRandom::new ]() -> (rng: ring::rand::SystemRandom)
;

/// Calls `ring::rand::SecureRandom::fill` on a fresh array of `N` bytes.
/// Nothing is known of the bytes that come back, and the call may fail.
#[verifier::external_body]
pub(crate) fn random_array<const N: usize>(rng: &ring::rand::SystemRandom) -> (r: Result<
    [u8; N],
    ring::error::Unspecified,
>) {
    let mut bytes = [0u8; N];
    ring::rand::SecureRandom::fill(rng, &mut bytes)?;
    Ok(bytes)
}

} // verus!
