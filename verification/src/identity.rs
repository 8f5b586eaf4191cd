//! Identities: a local one that holds its keys, and a public-key-only one that cannot
//! sign.
use vstd::prelude::*;

use crate::crypto::{generate_identity, sign, x25519_secret_of_seed};
use crate::encoding::{hex_encode, hex_lower, lemma_hex_lower};
use crate::errors::CryptoError;
use crate::primitives::{ed25519_public, ed25519_signature, x25519_public};

verus! {

/// The text of each of a list of strings.
pub open spec fn string_views(strings: Seq<String>) -> Seq<Seq<char>> {
    Seq::new(strings.len(), |i: int| strings[i]@)
}

/// A participant in the network.
pub trait Identity: Send + Sync {
    /// The Ed25519 public key.
    spec fn ed25519_public_bytes(&self) -> Seq<u8>;

    /// The X25519 public key.
    spec fn x25519_public_bytes(&self) -> Seq<u8>;

    /// The Ed25519 seed this identity signs with, if it holds one.
    spec fn signing_seed(&self) -> Option<Seq<u8>>;

    /// The organizations this identity belongs to.
    spec fn org_id_texts(&self) -> Seq<Seq<char>>;

    /// The Ed25519 public key in lowercase hex.
    fn ed25519_pubkey_hex(&self) -> (hex: String)
        ensures
            hex@ == hex_lower(self.ed25519_public_bytes()),
    ;

    /// The X25519 public key in lowercase hex.
    fn x25519_pubkey_hex(&self) -> (hex: String)
        ensures
            hex@ == hex_lower(self.x25519_public_bytes()),
    ;

    /// The Ed25519 signature of `message` in lowercase hex, or `InvalidPrivateKey` when
    /// the identity holds no signing key.
    fn sign_hex(&self, message: &[u8]) -> (result: Result<String, CryptoError>)
        ensures
            match self.signing_seed() {
                Some(seed) => result matches Ok(hex) && hex@ == hex_lower(
                    ed25519_signature(seed, message@),
                ),
                None => result matches Err(CryptoError::InvalidPrivateKey),
            },
            result matches Ok(hex) ==> hex@.len() == 128,
    ;

    /// The organizations this identity belongs to.
    fn org_ids(&self) -> (ids: Vec<String>)
        ensures
            string_views(ids@) == self.org_id_texts(),
    ;
}

/// An identity whose Ed25519 and X25519 key pairs are held locally.
pub struct LocalIdentity {
    ed25519_priv: [u8; 32],
    ed25519_pub: [u8; 32],
    x25519_priv: [u8; 32],
    x25519_pub: [u8; 32],
    org_ids: Vec<String>,
}

impl LocalIdentity {
    /// The Ed25519 seed.
    pub closed spec fn ed25519_secret_bytes(&self) -> Seq<u8> {
        self.ed25519_priv@
    }

    /// The X25519 secret.
    pub closed spec fn x25519_secret_bytes(&self) -> Seq<u8> {
        self.x25519_priv@
    }

    /// A fresh identity with a random seed, the keys that belong to it, and no
    /// organizations.
    pub fn generate() -> (result: Result<Self, CryptoError>)
        ensures
            result matches Ok(id) && id.ed25519_public_bytes() == ed25519_public(
                id.ed25519_secret_bytes(),
            ) && id.x25519_secret_bytes() == x25519_secret_of_seed(id.ed25519_secret_bytes())
                && id.x25519_public_bytes() == x25519_public(id.x25519_secret_bytes())
                && id.signing_seed() == Some(id.ed25519_secret_bytes())
                && id.org_id_texts() == Seq::<Seq<char>>::empty(),
    {
        let (ed_priv, ed_pub, x_priv, x_pub) = generate_identity();
        let id = Self {
            ed25519_priv: ed_priv,
            ed25519_pub: ed_pub,
            x25519_priv: x_priv,
            x25519_pub: x_pub,
            org_ids: Vec::new(),
        };
        assert(id.org_id_texts() =~= Seq::<Seq<char>>::empty());
        Ok(id)
    }

    /// An identity from given key bytes, with no organizations.
    pub fn from_bytes(
        ed25519_priv: [u8; 32],
        ed25519_pub: [u8; 32],
        x25519_priv: [u8; 32],
        x25519_pub: [u8; 32],
    ) -> (id: Self)
        ensures
            id.ed25519_secret_bytes() == ed25519_priv@,
            id.ed25519_public_bytes() == ed25519_pub@,
            id.x25519_secret_bytes() == x25519_priv@,
            id.x25519_public_bytes() == x25519_pub@,
            id.signing_seed() == Some(ed25519_priv@),
            id.org_id_texts() == Seq::<Seq<char>>::empty(),
    {
        let id = Self { ed25519_priv, ed25519_pub, x25519_priv, x25519_pub, org_ids: Vec::new() };
        assert(id.org_id_texts() =~= Seq::<Seq<char>>::empty());
        id
    }

    /// The same identity, also a member of `org_id`.
    pub fn with_org(self, org_id: &str) -> (id: Self)
        ensures
            id.ed25519_secret_bytes() == self.ed25519_secret_bytes(),
            id.ed25519_public_bytes() == self.ed25519_public_bytes(),
            id.x25519_secret_bytes() == self.x25519_secret_bytes(),
            id.x25519_public_bytes() == self.x25519_public_bytes(),
            id.signing_seed() == self.signing_seed(),
            id.org_id_texts() == self.org_id_texts().push(org_id@),
    {
        let mut id = self;
        id.org_ids.push(org_id.to_owned());
        assert(id.org_id_texts() =~= self.org_id_texts().push(org_id@));
        id
    }
}

impl Identity for LocalIdentity {
    closed spec fn ed25519_public_bytes(&self) -> Seq<u8> {
        self.ed25519_pub@
    }

    closed spec fn x25519_public_bytes(&self) -> Seq<u8> {
        self.x25519_pub@
    }

    closed spec fn signing_seed(&self) -> Option<Seq<u8>> {
        Some(self.ed25519_priv@)
    }

    closed spec fn org_id_texts(&self) -> Seq<Seq<char>> {
        string_views(self.org_ids@)
    }

    fn ed25519_pubkey_hex(&self) -> (hex: String) {
        hex_encode(&self.ed25519_pub)
    }

    fn x25519_pubkey_hex(&self) -> (hex: String) {
        hex_encode(&self.x25519_pub)
    }

    fn sign_hex(&self, message: &[u8]) -> (result: Result<String, CryptoError>) {
        let sig = match sign(&self.ed25519_priv, message) {
            Ok(sig) => sig,
            Err(e) => {
                return Err(e);
            },
        };
        proof {
            lemma_hex_lower(sig@);
        }
        Ok(hex_encode(&sig))
    }

    fn org_ids(&self) -> (ids: Vec<String>) {
        let ids = self.org_ids.clone();
        assert(string_views(ids@) =~= string_views(self.org_ids@));
        ids
    }
}

/// Every local identity signs with its own Ed25519 seed.
pub proof fn lemma_local_identity_signs_with_seed(id: LocalIdentity)
    ensures
        id.signing_seed() == Some(id.ed25519_secret_bytes()),
{
}

/// An identity known by its public keys only (its signing key is held elsewhere), so it
/// cannot sign locally.
pub struct SolanaIdentity {
    ed25519_pub: [u8; 32],
    x25519_pub: [u8; 32],
    org_ids: Vec<String>,
}

impl SolanaIdentity {
    /// An identity from its two public keys, with no organizations.
    pub fn new(ed25519_pub: [u8; 32], x25519_pub: [u8; 32]) -> (id: Self)
        ensures
            id.ed25519_public_bytes() == ed25519_pub@,
            id.x25519_public_bytes() == x25519_pub@,
            id.signing_seed() is None,
            id.org_id_texts() == Seq::<Seq<char>>::empty(),
    {
        let id = Self { ed25519_pub, x25519_pub, org_ids: Vec::new() };
        assert(id.org_id_texts() =~= Seq::<Seq<char>>::empty());
        id
    }
}

impl Identity for SolanaIdentity {
    closed spec fn ed25519_public_bytes(&self) -> Seq<u8> {
        self.ed25519_pub@
    }

    closed spec fn x25519_public_bytes(&self) -> Seq<u8> {
        self.x25519_pub@
    }

    closed spec fn signing_seed(&self) -> Option<Seq<u8>> {
        None
    }

    closed spec fn org_id_texts(&self) -> Seq<Seq<char>> {
        string_views(self.org_ids@)
    }

    fn ed25519_pubkey_hex(&self) -> (hex: String) {
        hex_encode(&self.ed25519_pub)
    }

    fn x25519_pubkey_hex(&self) -> (hex: String) {
        hex_encode(&self.x25519_pub)
    }

    fn sign_hex(&self, _message: &[u8]) -> (result: Result<String, CryptoError>) {
        Err(CryptoError::InvalidPrivateKey)
    }

    fn org_ids(&self) -> (ids: Vec<String>) {
        let ids = self.org_ids.clone();
        assert(string_views(ids@) =~= string_views(self.org_ids@));
        ids
    }
}

/// No public-key-only identity holds a signing seed, so every such identity refuses to
/// sign, whatever the message.
pub proof fn lemma_solana_identity_cannot_sign(id: SolanaIdentity)
    ensures
        id.signing_seed() is None,
{
}

} // verus!
