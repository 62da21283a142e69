//! The source of random bytes.

use rand::Rng;
use vstd::prelude::*;

verus! {

/// Draws one byte from the `rand` crate's thread-local generator: a call of
/// `rand::thread_rng()` and of `Rng::gen::<u8>()` on what it returns.
/// Nothing is claimed of the byte: every value of `u8` may come back, and
/// two calls may differ. The generator is seeded by the operating system
/// when a thread first uses it.
#[verifier::external_body]
pub(crate) fn random_byte() -> (byte: u8) {
    let mut rng = rand::thread_rng();
    rng.gen::<u8>()
}

} // verus!
