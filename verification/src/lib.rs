use vstd::prelude::*;

pub mod crypto;
pub mod encoding;
pub mod errors;
pub mod gf256;
pub mod identity;
pub mod poly;
pub mod primitives;
pub mod rng;
pub mod secp256k1;
pub mod shamir;
pub mod share_json;
pub mod types;

pub use crypto::{
    compute_blind_token, decrypt_symmetric, derive_epoch_keys, encrypt_symmetric, generate_dek,
    generate_identity, generate_identity_from_seed, master_key_to_mnemonic,
    mnemonic_to_master_key, open_envelope, reconstruct_secret, seal_to_pubkey, sign,
    split_secret, verify, EpochKeys,
};
pub use errors::CryptoError;
pub use identity::{Identity, LocalIdentity, SolanaIdentity};
pub use share_json::{reconstruct_secret_json, split_secret_json};
