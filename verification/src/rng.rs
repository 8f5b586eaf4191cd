//! Randomness from the operating system.
use vstd::prelude::*;

verus! {

/// `len` bytes from the operating system's random source (`rand::rngs::OsRng`, through
/// `rand::RngCore::fill_bytes`). Only the length is promised: the bytes are chance.
#[verifier::external_body]
pub(crate) fn os_random_vec(len: usize) -> (bytes: Vec<u8>)
    ensures
        bytes@.len() == len,
{
    let mut bytes = vec![0u8; len];
    rand::RngCore::fill_bytes(&mut rand::rngs::OsRng, &mut bytes);
    bytes
}

/// An array of bytes from the operating system's random source (`rand::rngs::OsRng`,
/// through `rand::RngCore::fill_bytes`). Nothing is promised of the bytes: they are chance.
#[verifier::external_body]
pub(crate) fn os_random_array<const N: usize>() -> [u8; N] {
    let mut bytes = [0u8; N];
    rand::RngCore::fill_bytes(&mut rand::rngs::OsRng, &mut bytes);
    bytes
}

} // verus!
