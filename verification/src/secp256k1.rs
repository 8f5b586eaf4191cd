//! secp256k1 key material (`k256`) for proxy re-encryption: a 32-byte big-endian
//! scalar secret and its 33-byte compressed SEC1 public key.
use vstd::prelude::*;
use vstd::string::StringSliceAdditionalSpecFns;

use crate::encoding::first_32;
use crate::errors::CryptoError;
use crate::primitives::{hmac_sha512, hmac_sha512_64};

verus! {

/// The value of bytes read as a big-endian unsigned integer.
pub open spec fn be_value(bytes: Seq<u8>) -> nat
    decreases bytes.len(),
{
    if bytes.len() == 0 {
        0
    } else {
        be_value(bytes.drop_last()) * 256 + bytes.last() as nat
    }
}

/// The order of the secp256k1 group.
pub open spec fn secp256k1_order() -> nat {
    0xFFFFFFFFFFFFFFFFFFFFFFFFFFFFFFFEBAAEDCE6AF48A03BBFD25E8CD0364141nat
}

/// Whether 32 bytes are a secp256k1 secret key: a big-endian scalar between 1 and the
/// group order minus one.
pub open spec fn valid_secret(bytes: Seq<u8>) -> bool {
    bytes.len() == 32 && 0 < be_value(bytes) && be_value(bytes) < secp256k1_order()
}

/// The compressed SEC1 encoding of the public key of a secret key.
pub uninterp spec fn secp256k1_public(secret: Seq<u8>) -> Seq<u8>;

/// The HMAC key under which child keys are derived.
pub open spec fn derivation_key() -> Seq<u8> {
    "secp256k1-bip32-derive".spec_bytes()
}

/// The candidate child secret for a parent key and label: the first 32 bytes of
/// HMAC-SHA512 under the derivation key of the parent key followed by the label.
pub open spec fn derived_secret(parent_key: Seq<u8>, label: Seq<u8>) -> Seq<u8> {
    hmac_sha512(derivation_key(), parent_key + label).subrange(0, 32)
}

/// The candidate child secret is the first 32 bytes of HMAC-SHA512, keyed with
/// `secp256k1-bip32-derive`, of the whole parent key followed by the whole label.
pub proof fn lemma_derived_secret_is_mac_prefix(parent_key: Seq<u8>, label: Seq<u8>)
    ensures
        derived_secret(parent_key, label) == hmac_sha512(
            "secp256k1-bip32-derive".spec_bytes(),
            parent_key + label,
        ).subrange(0, 32),
{
}

/// `k256::SecretKey::random(&mut OsRng)` as bytes: a random secret key. As the source
/// shows (`NonZeroScalar::random` draws until it finds a nonzero scalar below the
/// order), the bytes are a valid secret; nothing else is claimed of them.
#[verifier::external_body]
fn k256_random_secret() -> (secret: [u8; 32])
    ensures
        valid_secret(secret@),
{
    k256::SecretKey::random(&mut rand::rngs::OsRng).to_bytes().into()
}

/// Whether `k256::SecretKey::from_bytes` accepts the bytes: by its source, exactly when
/// they are a big-endian scalar that is nonzero and below the group order.
#[verifier::external_body]
fn k256_accepts_secret(bytes: &[u8; 32]) -> (ok: bool)
    ensures
        ok == valid_secret(bytes@),
{
    k256::SecretKey::from_bytes(bytes.into()).is_ok()
}

/// `k256::SecretKey::from_bytes(secret).public_key().to_sec1_bytes()`, named by
/// `secp256k1_public`. As the source shows, k256 compresses points, so the encoding is
/// 33 bytes with a leading 0x02 or 0x03.
#[verifier::external_body]
fn k256_public_key(secret: &[u8; 32]) -> (public: Vec<u8>)
    requires
        valid_secret(secret@),
    ensures
        public@ == secp256k1_public(secret@),
        public@.len() == 33,
        public@[0] == 2 || public@[0] == 3,
{
    let secret = k256::SecretKey::from_bytes(secret.into()).expect("a valid secret key");
    secret.public_key().to_sec1_bytes().to_vec()
}

/// A secp256k1 secret key.
pub struct PreIdentity {
    secret_key: [u8; 32],
}

impl View for PreIdentity {
    type V = Seq<u8>;

    /// The secret key's 32 big-endian bytes.
    closed spec fn view(&self) -> Seq<u8> {
        self.secret_key@
    }
}

impl PreIdentity {
    #[verifier::type_invariant]
    spec fn holds_valid_secret(self) -> bool {
        valid_secret(self.secret_key@)
    }

    /// A fresh random secret key.
    pub fn random() -> (result: Result<Self, CryptoError>)
        ensures
            result matches Ok(id) && valid_secret(id@),
    {
        let sk = k256_random_secret();
        Ok(Self { secret_key: sk })
    }

    /// The secret key derived deterministically from a parent key and a label;
    /// `InvalidPrivateKey` in the (negligibly rare) case that the derived bytes are not a
    /// valid secret key.
    pub fn derive(parent_key: &[u8; 32], label: &[u8]) -> (result: Result<Self, CryptoError>)
        ensures
            valid_secret(derived_secret(parent_key@, label@)) ==> (result matches Ok(id) && id@
                == derived_secret(parent_key@, label@)),
            !valid_secret(derived_secret(parent_key@, label@)) ==> (result matches Err(
                CryptoError::InvalidPrivateKey,
            )),
            hmac_sha512(derivation_key(), parent_key@ + label@).len() == 64,
            result matches Ok(id) ==> id@ == hmac_sha512(
                "secp256k1-bip32-derive".spec_bytes(),
                parent_key@ + label@,
            ).subrange(0, 32),
    {
        let mut message: Vec<u8> = Vec::new();
        let mut i: usize = 0;
        while i < 32
            invariant
                i <= 32,
                message@ =~= parent_key@.subrange(0, i as int),
            decreases 32 - i,
        {
            message.push(parent_key[i]);
            i += 1;
        }
        let mut j: usize = 0;
        while j < label.len()
            invariant
                j <= label@.len(),
                message@ =~= parent_key@ + label@.subrange(0, j as int),
            decreases label@.len() - j,
        {
            message.push(label[j]);
            j += 1;
        }
        assert(message@ =~= parent_key@ + label@);
        let result = hmac_sha512_64("secp256k1-bip32-derive".as_bytes(), message.as_slice());
        let child_sk_bytes = first_32(&result);
        if !k256_accepts_secret(&child_sk_bytes) {
            return Err(CryptoError::InvalidPrivateKey);
        }
        Ok(Self { secret_key: child_sk_bytes })
    }

    /// The secret key with the given bytes, or `InvalidPrivateKey` when they are not a
    /// valid secret key.
    pub fn from_secret_bytes(bytes: &[u8; 32]) -> (result: Result<Self, CryptoError>)
        ensures
            valid_secret(bytes@) ==> (result matches Ok(id) && id@ == bytes@),
            !valid_secret(bytes@) ==> (result matches Err(CryptoError::InvalidPrivateKey)),
    {
        if !k256_accepts_secret(bytes) {
            return Err(CryptoError::InvalidPrivateKey);
        }
        Ok(Self { secret_key: *bytes })
    }

    /// The secret key's 32 big-endian bytes.
    pub fn secret_key_bytes(&self) -> (bytes: [u8; 32])
        ensures
            bytes@ == self@,
            valid_secret(bytes@),
    {
        proof {
            use_type_invariant(self);
        }
        self.secret_key
    }

    /// The compressed SEC1 public key: 33 bytes beginning with 0x02 or 0x03.
    pub fn public_key_bytes(&self) -> (public: Vec<u8>)
        ensures
            public@ == secp256k1_public(self@),
            public@.len() == 33,
            public@[0] == 2 || public@[0] == 3,
    {
        proof {
            use_type_invariant(self);
        }
        k256_public_key(&self.secret_key)
    }
}

} // verus!
