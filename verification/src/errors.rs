use vstd::prelude::*;

verus! {

/// The ways in which an operation of this library can fail.
#[derive(Debug)]
pub enum CryptoError {
    /// An envelope shorter than the 60 bytes of key, nonce and tag; holds its length.
    EnvelopeTooShort(usize),
    /// A symmetric blob shorter than the 28 bytes of nonce and tag; holds its length.
    BlobTooShort(usize),
    /// The authentication tag did not match.
    DecryptionFailed,
    /// Bytes that are not a valid public key.
    InvalidPublicKey,
    /// Bytes that are not a valid private key, or no private key at hand.
    InvalidPrivateKey,
    /// Key expansion failed.
    HkdfError,
    /// A recovery phrase could not be made or read.
    MnemonicError(String),
    /// Malformed input.
    InvalidInput(String),
}

} // verus!
