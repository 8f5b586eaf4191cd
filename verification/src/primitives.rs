//! The cryptographic primitives this library builds on, called in their crates:
//! Ed25519 (`ed25519-dalek`), X25519 (`x25519-dalek`), HKDF and HMAC over SHA-2
//! (`hkdf`, `hmac`, `sha2`), AES-256-GCM (`aes-gcm`) and key erasure (`zeroize`).
//! Each result is named by a function of the arguments alone; the few facts stated
//! beside the names are those the crates document.
use aes_gcm::aead::{Aead, KeyInit};
use ed25519_dalek::{Signer, Verifier};
use hmac::Mac;
use vstd::prelude::*;

verus! {

/// The Ed25519 public key of a 32-byte secret seed.
pub uninterp spec fn ed25519_public(secret: Seq<u8>) -> Seq<u8>;

/// The (deterministic) Ed25519 signature of `message` under a 32-byte secret seed.
pub uninterp spec fn ed25519_signature(secret: Seq<u8>, message: Seq<u8>) -> Seq<u8>;

/// Whether `signature` is a valid Ed25519 signature of `message` under the 32-byte
/// public key (false when the key does not decode to a curve point).
pub uninterp spec fn ed25519_accepts(public: Seq<u8>, signature: Seq<u8>, message: Seq<u8>) -> bool;

/// The X25519 public key of a 32-byte secret.
pub uninterp spec fn x25519_public(secret: Seq<u8>) -> Seq<u8>;

/// The X25519 shared secret of a 32-byte secret and a 32-byte public key.
pub uninterp spec fn x25519_shared(secret: Seq<u8>, public: Seq<u8>) -> Seq<u8>;

/// The 32 bytes of HKDF-SHA256 output for a salt, input key material and info string.
pub uninterp spec fn hkdf_sha256(salt: Seq<u8>, ikm: Seq<u8>, info: Seq<u8>) -> Seq<u8>;

/// HMAC-SHA256 of `message` under `key`.
pub uninterp spec fn hmac_sha256(key: Seq<u8>, message: Seq<u8>) -> Seq<u8>;

/// HMAC-SHA512 of `message` under `key`.
pub uninterp spec fn hmac_sha512(key: Seq<u8>, message: Seq<u8>) -> Seq<u8>;

/// AES-256-GCM encryption of `plaintext` (no associated data): ciphertext then tag.
pub uninterp spec fn aes256gcm_seal(key: Seq<u8>, nonce: Seq<u8>, plaintext: Seq<u8>) -> Seq<u8>;

/// AES-256-GCM decryption of ciphertext-then-tag; `None` when the tag does not verify.
pub uninterp spec fn aes256gcm_open(key: Seq<u8>, nonce: Seq<u8>, ciphertext: Seq<u8>) -> Option<
    Seq<u8>,
>;

/// The most plaintext bytes AES-256-GCM encrypts in one message (`aes_gcm::P_MAX`).
pub const AES_GCM_MAX_PLAINTEXT: u64 = 0x10_0000_0000;

/// `ed25519_dalek::SigningKey::from_bytes(secret).verifying_key().to_bytes()`: the
/// public key of the seed, named by `ed25519_public`.
#[verifier::external_body]
pub(crate) fn ed25519_public_key(secret: &[u8; 32]) -> (public: [u8; 32])
    ensures
        public@ == ed25519_public(secret@),
{
    ed25519_dalek::SigningKey::from_bytes(secret).verifying_key().to_bytes()
}

/// `ed25519_dalek::SigningKey::from_bytes(secret)` signing `message` (through
/// `Signer::sign`, which never fails), as 64 bytes. Claimed beyond the name: the
/// signature verifies under the seed's public key, as the crate documents.
#[verifier::external_body]
pub(crate) fn ed25519_sign(secret: &[u8; 32], message: &[u8]) -> (signature: [u8; 64])
    ensures
        signature@ == ed25519_signature(secret@, message@),
        ed25519_accepts(ed25519_public(secret@), signature@, message@),
{
    ed25519_dalek::SigningKey::from_bytes(secret).sign(message).to_bytes()
}

/// `ed25519_dalek::VerifyingKey::from_bytes(public)` then `Verifier::verify` of
/// `message` against `Signature::from_bytes(signature)`; a key that does not decode
/// counts as a failed check. The result is named by `ed25519_accepts`.
#[verifier::external_body]
pub(crate) fn ed25519_check(public: &[u8; 32], signature: &[u8; 64], message: &[u8]) -> (ok: bool)
    ensures
        ok == ed25519_accepts(public@, signature@, message@),
{
    match ed25519_dalek::VerifyingKey::from_bytes(public) {
        Ok(key) => key.verify(message, &ed25519_dalek::Signature::from_bytes(signature)).is_ok(),
        Err(_) => false,
    }
}

/// `x25519_dalek::PublicKey::from(&StaticSecret::from(*secret))` as bytes. Claimed
/// beyond the name: Diffie-Hellman agreement, as the crate documents it (two parties
/// that combine their own secret with the other's public key get the same secret).
#[verifier::external_body]
pub(crate) fn x25519_public_key(secret: &[u8; 32]) -> (public: [u8; 32])
    ensures
        public@ == x25519_public(secret@),
        forall|other: Seq<u8>|
            other.len() == 32 ==> #[trigger] x25519_shared(other, public@) == x25519_shared(
                secret@,
                x25519_public(other),
            ),
{
    let secret = x25519_dalek::StaticSecret::from(*secret);
    x25519_dalek::PublicKey::from(&secret).to_bytes()
}

/// `x25519_dalek::StaticSecret::from(*secret).diffie_hellman(&PublicKey::from(*public))`
/// as bytes, named by `x25519_shared`.
#[verifier::external_body]
pub(crate) fn x25519_diffie_hellman(secret: &[u8; 32], public: &[u8; 32]) -> (shared: [u8; 32])
    ensures
        shared@ == x25519_shared(secret@, public@),
{
    let secret = x25519_dalek::StaticSecret::from(*secret);
    secret.diffie_hellman(&x25519_dalek::PublicKey::from(*public)).to_bytes()
}

/// `hkdf::Hkdf::<sha2::Sha256>::new(Some(salt), ikm)` expanded with `info` into 32
/// bytes (which the crate allows for any output up to 255 * 32 bytes, so it never
/// fails here), named by `hkdf_sha256`.
#[verifier::external_body]
pub(crate) fn hkdf_sha256_32(salt: &[u8], ikm: &[u8], info: &[u8]) -> (okm: [u8; 32])
    ensures
        okm@ == hkdf_sha256(salt@, ikm@, info@),
{
    let hk = hkdf::Hkdf::<sha2::Sha256>::new(Some(salt), ikm);
    let mut okm = [0u8; 32];
    hk.expand(info, &mut okm).expect("32 bytes is a valid HKDF-SHA256 length");
    okm
}

/// `hmac::Hmac::<sha2::Sha256>` keyed with `key` (any length is accepted) over
/// `message`, named by `hmac_sha256`.
#[verifier::external_body]
pub(crate) fn hmac_sha256_32(key: &[u8], message: &[u8]) -> (mac: [u8; 32])
    ensures
        mac@ == hmac_sha256(key@, message@),
{
    let mut mac = <hmac::Hmac<sha2::Sha256> as Mac>::new_from_slice(key).expect(
        "HMAC accepts keys of any length",
    );
    mac.update(message);
    mac.finalize().into_bytes().into()
}

/// `hmac::Hmac::<sha2::Sha512>` keyed with `key` (any length is accepted) over
/// `message`: 64 bytes, named by `hmac_sha512`.
#[verifier::external_body]
pub(crate) fn hmac_sha512_64(key: &[u8], message: &[u8]) -> (mac: [u8; 64])
    ensures
        mac@ == hmac_sha512(key@, message@),
{
    let mut mac = <hmac::Hmac<sha2::Sha512> as Mac>::new_from_slice(key).expect(
        "HMAC accepts keys of any length",
    );
    mac.update(message);
    mac.finalize().into_bytes().into()
}

/// `aes_gcm::Aes256Gcm::new(key)` encrypting `plaintext` under `nonce` through
/// `Aead::encrypt`, which fails only for plaintexts longer than `P_MAX` (ruled out
/// here). Claimed beyond the name, as the crate's source and documentation show: the
/// output is the ciphertext (as long as the plaintext) followed by the 16-byte tag,
/// and decrypting it under the same key and nonce gives the plaintext back.
#[verifier::external_body]
pub(crate) fn aes256gcm_encrypt(key: &[u8; 32], nonce: &[u8; 12], plaintext: &[u8]) -> (ciphertext: Vec<u8>)
    requires
        plaintext@.len() <= AES_GCM_MAX_PLAINTEXT,
    ensures
        ciphertext@ == aes256gcm_seal(key@, nonce@, plaintext@),
        ciphertext@.len() == plaintext@.len() + 16,
        aes256gcm_open(key@, nonce@, ciphertext@) == Some(plaintext@),
{
    let cipher = aes_gcm::Aes256Gcm::new(aes_gcm::Key::<aes_gcm::Aes256Gcm>::from_slice(key));
    cipher.encrypt(aes_gcm::Nonce::from_slice(nonce), plaintext).expect(
        "plaintext within the AES-GCM limit",
    )
}

/// `aes_gcm::Aes256Gcm::new(key)` decrypting `ciphertext` (tag last) under `nonce`
/// through `Aead::decrypt`; `None` on failure. Named by `aes256gcm_open`. Claimed beyond
/// the name, as the crate's source shows (the tag is checked against the one computed
/// over the ciphertext, then the counter-mode keystream is removed): what it gives back
/// encrypts to exactly `ciphertext`, so it is 16 bytes shorter; and the encryption of any
/// plaintext within `P_MAX` decrypts back to that plaintext.
#[verifier::external_body]
pub(crate) fn aes256gcm_decrypt(key: &[u8; 32], nonce: &[u8], ciphertext: &[u8]) -> (plaintext: Option<Vec<u8>>)
    requires
        nonce@.len() == 12,
    ensures
        match plaintext {
            Some(p) => aes256gcm_open(key@, nonce@, ciphertext@) == Some(p@),
            None => aes256gcm_open(key@, nonce@, ciphertext@) is None,
        },
        plaintext matches Some(p) ==> aes256gcm_seal(key@, nonce@, p@) == ciphertext@
            && p@.len() + 16 == ciphertext@.len(),
        forall|m: Seq<u8>|
            m.len() <= AES_GCM_MAX_PLAINTEXT && #[trigger] aes256gcm_seal(key@, nonce@, m)
                == ciphertext@ ==> plaintext is Some && plaintext->0@ == m,
{
    let cipher = aes_gcm::Aes256Gcm::new(aes_gcm::Key::<aes_gcm::Aes256Gcm>::from_slice(key));
    cipher.decrypt(aes_gcm::Nonce::from_slice(nonce), ciphertext).ok()
}

/// `zeroize::Zeroize::zeroize` on a key: every byte becomes zero.
#[verifier::external_body]
pub(crate) fn zeroize_key(key: &mut [u8; 32])
    ensures
        final(key)@ == Seq::new(32, |i: int| 0u8),
{
    zeroize::Zeroize::zeroize(key);
}

} // verus!
