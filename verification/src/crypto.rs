//! Key generation, signatures, envelopes, symmetric encryption, epoch key derivation,
//! blind search tokens and recovery phrases.
use vstd::prelude::*;
use vstd::string::{is_ascii, StringExecFns, StringSliceAdditionalSpecFns};

use crate::encoding::{
    be32, bip39_entropy, bip39_entropy_of, bip39_phrase, bip39_phrase_of,
    decimal, decimal_string, first_32, hex_encode, hex_lower, is_lower_hex_char, is_phrase_of,
    lemma_be32_injective, lemma_be32_value,
    lemma_hex_lower, u32_to_be_bytes,
};
use crate::errors::CryptoError;
use crate::primitives::{
    aes256gcm_decrypt, aes256gcm_encrypt, aes256gcm_open, aes256gcm_seal, ed25519_accepts,
    ed25519_check, ed25519_public, ed25519_public_key, ed25519_sign, ed25519_signature,
    hkdf_sha256, hkdf_sha256_32, hmac_sha256, hmac_sha256_32, x25519_diffie_hellman,
    x25519_public, x25519_public_key, x25519_shared, zeroize_key, AES_GCM_MAX_PLAINTEXT,
};
use crate::rng::os_random_array;

pub use crate::shamir::{reconstruct_secret, split_secret};

verus! {

/// The all-zero salt used with HKDF throughout.
pub open spec fn zero_salt() -> Seq<u8> {
    Seq::new(32, |i: int| 0u8)
}

/// The HKDF info string of envelope keys.
pub open spec fn envelope_info() -> Seq<u8> {
    "wevibe-envelope-v1".spec_bytes()
}

/// The AES key of an envelope, from the X25519 shared secret.
pub open spec fn envelope_key(shared: Seq<u8>) -> Seq<u8> {
    hkdf_sha256(zero_salt(), shared, envelope_info())
}

/// The envelope of `plaintext` for the holder of `recipient`'s secret, made with the
/// ephemeral secret `ephemeral` and the nonce `nonce`: the ephemeral public key, the
/// nonce, then the AES-256-GCM ciphertext and tag.
pub open spec fn seal_spec(
    plaintext: Seq<u8>,
    recipient: Seq<u8>,
    ephemeral: Seq<u8>,
    nonce: Seq<u8>,
) -> Seq<u8> {
    x25519_public(ephemeral) + nonce + aes256gcm_seal(
        envelope_key(x25519_shared(ephemeral, recipient)),
        nonce,
        plaintext,
    )
}

/// What opening an envelope of at least 60 bytes with `secret` gives: the plaintext,
/// or `None` when authentication fails.
pub open spec fn open_spec(blob: Seq<u8>, secret: Seq<u8>) -> Option<Seq<u8>> {
    aes256gcm_open(
        envelope_key(x25519_shared(secret, blob.subrange(0, 32))),
        blob.subrange(32, 44),
        blob.subrange(44, blob.len() as int),
    )
}

/// What decrypting a blob of at least 28 bytes gives: the plaintext, or `None` when
/// authentication fails.
pub open spec fn decrypt_spec(blob: Seq<u8>, key: Seq<u8>) -> Option<Seq<u8>> {
    aes256gcm_open(key, blob.subrange(0, 12), blob.subrange(12, blob.len() as int))
}

/// The HKDF info string of the X25519 key that belongs to an identity seed.
pub open spec fn x25519_seed_info() -> Seq<u8> {
    "wevibe-x25519-v1".spec_bytes()
}

/// The X25519 secret that belongs to an Ed25519 identity seed.
pub open spec fn x25519_secret_of_seed(seed: Seq<u8>) -> Seq<u8> {
    hkdf_sha256(zero_salt(), seed, x25519_seed_info())
}

/// The X25519 secret of a seed is HKDF-SHA256 with an all-zero 32-byte salt, the seed
/// itself as input key material, and `wevibe-x25519-v1` as info.
pub proof fn lemma_x25519_secret_of_seed(seed: Seq<u8>)
    ensures
        x25519_secret_of_seed(seed) == hkdf_sha256(
            Seq::new(32, |i: int| 0u8),
            seed,
            "wevibe-x25519-v1".spec_bytes(),
        ),
{
    assert(zero_salt() =~= Seq::new(32, |i: int| 0u8));
}

/// The four keys of the identity with Ed25519 seed `seed`: the seed and its public key,
/// then the X25519 secret derived from the seed by HKDF and its public key.
pub fn generate_identity_from_seed(seed: &[u8; 32]) -> (keys: ([u8; 32], [u8; 32], [u8; 32], [u8; 32]))
    ensures
        keys.0@ == seed@,
        keys.1@ == ed25519_public(seed@),
        keys.2@ == x25519_secret_of_seed(seed@),
        keys.2@ == hkdf_sha256(Seq::new(32, |i: int| 0u8), seed@, "wevibe-x25519-v1".spec_bytes()),
        keys.3@ == x25519_public(keys.2@),
{
    let ed_pubkey = ed25519_public_key(seed);
    let salt = [0u8; 32];
    assert(salt@ =~= zero_salt());
    let x_privkey = hkdf_sha256_32(&salt, seed, "wevibe-x25519-v1".as_bytes());
    let x_pubkey_bytes = x25519_public_key(&x_privkey);
    (*seed, ed_pubkey, x_privkey, x_pubkey_bytes)
}

/// A fresh identity: an Ed25519 seed drawn from the operating system's random source,
/// with the keys that belong to it (see `generate_identity_from_seed`).
pub fn generate_identity() -> (keys: ([u8; 32], [u8; 32], [u8; 32], [u8; 32]))
    ensures
        keys.1@ == ed25519_public(keys.0@),
        keys.2@ == x25519_secret_of_seed(keys.0@),
        keys.3@ == x25519_public(keys.2@),
{
    let seed: [u8; 32] = os_random_array();
    generate_identity_from_seed(&seed)
}

/// The Ed25519 signature of `data` under the seed `privkey`; it never fails.
pub fn sign(privkey: &[u8; 32], data: &[u8]) -> (result: Result<[u8; 64], CryptoError>)
    ensures
        result matches Ok(sig) && sig@ == ed25519_signature(privkey@, data@),
        result matches Ok(sig) && ed25519_accepts(ed25519_public(privkey@), sig@, data@),
{
    let signature = ed25519_sign(privkey, data);
    Ok(signature)
}

/// Whether `signature` is a valid Ed25519 signature of `data` under `pubkey`.
pub fn verify(pubkey: &[u8; 32], signature: &[u8; 64], data: &[u8]) -> (ok: bool)
    ensures
        ok == ed25519_accepts(pubkey@, signature@, data@),
{
    ed25519_check(pubkey, signature, data)
}

/// Seals `plaintext` to `recipient` with the given ephemeral secret and nonce.
pub fn seal_with(
    plaintext: &[u8],
    recipient_x25519_pubkey: &[u8; 32],
    ephemeral_secret: &[u8; 32],
    nonce: &[u8; 12],
) -> (blob: Vec<u8>)
    requires
        plaintext@.len() <= AES_GCM_MAX_PLAINTEXT,
    ensures
        blob@ == seal_spec(plaintext@, recipient_x25519_pubkey@, ephemeral_secret@, nonce@),
        blob@.len() == 32 + 12 + plaintext@.len() + 16,
        forall|secret: Seq<u8>|
            secret.len() == 32 && #[trigger] x25519_public(secret) == recipient_x25519_pubkey@
                ==> open_spec(blob@, secret) == Some(plaintext@),
{
    let ephemeral_pubkey = x25519_public_key(ephemeral_secret);
    let shared_secret = x25519_diffie_hellman(ephemeral_secret, recipient_x25519_pubkey);
    let salt = [0u8; 32];
    assert(salt@ =~= zero_salt());
    let mut aes_key = hkdf_sha256_32(&salt, &shared_secret, "wevibe-envelope-v1".as_bytes());
    let ciphertext = aes256gcm_encrypt(&aes_key, nonce, plaintext);
    zeroize_key(&mut aes_key);
    let mut blob: Vec<u8> = Vec::new();
    append_bytes(&mut blob, &ephemeral_pubkey);
    append_bytes(&mut blob, nonce);
    append_bytes(&mut blob, &ciphertext);
    proof {
        let b = blob@;
        assert(b.subrange(0, 32) =~= ephemeral_pubkey@);
        assert(b.subrange(32, 44) =~= nonce@);
        assert(b.subrange(44, b.len() as int) =~= ciphertext@);
        assert forall|secret: Seq<u8>|
            secret.len() == 32 && #[trigger] x25519_public(secret)
                == recipient_x25519_pubkey@ implies open_spec(b, secret) == Some(plaintext@) by {
            assert(x25519_shared(secret, ephemeral_pubkey@) == x25519_shared(
                ephemeral_secret@,
                x25519_public(secret),
            ));
        }
    }
    blob
}

/// Appends bytes to a buffer.
fn append_bytes(buf: &mut Vec<u8>, bytes: &[u8])
    ensures
        final(buf)@ == old(buf)@ + bytes@,
{
    let mut i: usize = 0;
    while i < bytes.len()
        invariant
            i <= bytes@.len(),
            buf@ =~= old(buf)@ + bytes@.subrange(0, i as int),
        decreases bytes@.len() - i,
    {
        buf.push(bytes[i]);
        i += 1;
    }
    assert(bytes@.subrange(0, bytes@.len() as int) =~= bytes@);
}

/// Seals `plaintext` so that only the holder of the X25519 secret behind
/// `recipient_x25519_pubkey` can open it: a fresh ephemeral key agreement, HKDF, then
/// AES-256-GCM under a fresh nonce.
pub fn seal_to_pubkey(plaintext: &[u8], recipient_x25519_pubkey: &[u8; 32]) -> (blob: Vec<u8>)
    requires
        plaintext@.len() <= AES_GCM_MAX_PLAINTEXT,
    ensures
        exists|ephemeral: Seq<u8>, nonce: Seq<u8>|
            ephemeral.len() == 32 && nonce.len() == 12 && blob@ == seal_spec(
                plaintext@,
                recipient_x25519_pubkey@,
                ephemeral,
                nonce,
            ),
        blob@.len() == 32 + 12 + plaintext@.len() + 16,
        forall|secret: Seq<u8>|
            secret.len() == 32 && #[trigger] x25519_public(secret) == recipient_x25519_pubkey@
                ==> open_spec(blob@, secret) == Some(plaintext@),
{
    let ephemeral_secret: [u8; 32] = os_random_array();
    let nonce: [u8; 12] = os_random_array();
    seal_with(plaintext, recipient_x25519_pubkey, &ephemeral_secret, &nonce)
}

/// Opens an envelope made by `seal_to_pubkey` with the recipient's X25519 secret.
pub fn open_envelope(blob: &[u8], our_x25519_privkey: &[u8; 32]) -> (result: Result<
    Vec<u8>,
    CryptoError,
>)
    ensures
        blob@.len() < 60 ==> (result matches Err(CryptoError::EnvelopeTooShort(n)) && n
            == blob@.len()),
        blob@.len() >= 60 ==> match open_spec(blob@, our_x25519_privkey@) {
            Some(p) => result matches Ok(r) && r@ == p,
            None => result matches Err(CryptoError::DecryptionFailed),
        },
        result matches Ok(r) ==> r@.len() + 60 == blob@.len() && aes256gcm_seal(
            envelope_key(x25519_shared(our_x25519_privkey@, blob@.subrange(0, 32))),
            blob@.subrange(32, 44),
            r@,
        ) == blob@.subrange(44, blob@.len() as int),
        forall|p: Seq<u8>|
            blob@.len() >= 60 && p.len() <= AES_GCM_MAX_PLAINTEXT && #[trigger] aes256gcm_seal(
                envelope_key(x25519_shared(our_x25519_privkey@, blob@.subrange(0, 32))),
                blob@.subrange(32, 44),
                p,
            ) == blob@.subrange(44, blob@.len() as int) ==> (result matches Ok(r) && r@ == p),
{
    if blob.len() < 32 + 12 + 16 {
        return Err(CryptoError::EnvelopeTooShort(blob.len()));
    }
    let ephemeral_pubkey_bytes = first_32(blob);
    let nonce_bytes = &blob[32..44];
    let ciphertext_with_tag = &blob[44..blob.len()];
    let shared_secret = x25519_diffie_hellman(our_x25519_privkey, &ephemeral_pubkey_bytes);
    let salt = [0u8; 32];
    assert(salt@ =~= zero_salt());
    let mut aes_key = hkdf_sha256_32(&salt, &shared_secret, "wevibe-envelope-v1".as_bytes());
    let plaintext = match aes256gcm_decrypt(&aes_key, nonce_bytes, ciphertext_with_tag) {
        Some(p) => p,
        None => {
            return Err(CryptoError::DecryptionFailed);
        },
    };
    zeroize_key(&mut aes_key);
    Ok(plaintext)
}

/// Encrypts `plaintext` under `key` with AES-256-GCM and a fresh random nonce: the
/// nonce, then the ciphertext and tag.
pub fn encrypt_symmetric(plaintext: &[u8], key: &[u8; 32]) -> (blob: Vec<u8>)
    requires
        plaintext@.len() <= AES_GCM_MAX_PLAINTEXT,
    ensures
        exists|nonce: Seq<u8>|
            nonce.len() == 12 && blob@ == nonce + aes256gcm_seal(key@, nonce, plaintext@),
        blob@.len() == 12 + plaintext@.len() + 16,
        decrypt_spec(blob@, key@) == Some(plaintext@),
{
    let nonce: [u8; 12] = os_random_array();
    let ciphertext = aes256gcm_encrypt(key, &nonce, plaintext);
    let mut blob: Vec<u8> = Vec::new();
    append_bytes(&mut blob, &nonce);
    append_bytes(&mut blob, &ciphertext);
    assert(blob@.subrange(0, 12) =~= nonce@);
    assert(blob@.subrange(12, blob@.len() as int) =~= ciphertext@);
    blob
}

/// Decrypts a blob made by `encrypt_symmetric`.
pub fn decrypt_symmetric(blob: &[u8], key: &[u8; 32]) -> (result: Result<Vec<u8>, CryptoError>)
    ensures
        blob@.len() < 28 ==> (result matches Err(CryptoError::BlobTooShort(n)) && n
            == blob@.len()),
        blob@.len() >= 28 ==> match decrypt_spec(blob@, key@) {
            Some(p) => result matches Ok(r) && r@ == p,
            None => result matches Err(CryptoError::DecryptionFailed),
        },
        result matches Ok(r) ==> r@.len() + 28 == blob@.len() && aes256gcm_seal(
            key@,
            blob@.subrange(0, 12),
            r@,
        ) == blob@.subrange(12, blob@.len() as int),
        forall|p: Seq<u8>|
            blob@.len() >= 28 && p.len() <= AES_GCM_MAX_PLAINTEXT && #[trigger] aes256gcm_seal(
                key@,
                blob@.subrange(0, 12),
                p,
            ) == blob@.subrange(12, blob@.len() as int) ==> (result matches Ok(r) && r@ == p),
{
    if blob.len() < 12 + 16 {
        return Err(CryptoError::BlobTooShort(blob.len()));
    }
    let nonce = &blob[0..12];
    let ciphertext_with_tag = &blob[12..blob.len()];
    match aes256gcm_decrypt(key, nonce, ciphertext_with_tag) {
        Some(p) => Ok(p),
        None => Err(CryptoError::DecryptionFailed),
    }
}

/// A fresh random 32-byte data-encryption key.
pub fn generate_dek() -> [u8; 32] {
    let dek: [u8; 32] = os_random_array();
    dek
}

/// The keys of one epoch.
pub struct EpochKeys {
    pub epoch: u32,
    pub enc_key: [u8; 32],
    pub search_key: [u8; 32],
    pub audit_key: [u8; 32],
}

/// The HKDF info string of an epoch key: the purpose's label, then the epoch in
/// big-endian.
pub open spec fn epoch_info(label: Seq<u8>, epoch: u32) -> Seq<u8> {
    label + be32(epoch)
}

/// The info string of an epoch key is the label followed by four bytes that, read as a
/// big-endian number, are the epoch.
pub proof fn lemma_epoch_info_layout(label: Seq<u8>, epoch: u32)
    ensures
        epoch_info(label, epoch).len() == label.len() + 4,
        epoch_info(label, epoch).subrange(0, label.len() as int) == label,
        ({
            let n = label.len() as int;
            let info = epoch_info(label, epoch);
            info[n] * 16777216 + info[n + 1] * 65536 + info[n + 2] * 256 + info[n + 3] == epoch
        }),
{
    lemma_be32_value(epoch);
    let n = label.len() as int;
    let info = epoch_info(label, epoch);
    assert(info.subrange(0, n) =~= label);
    assert(info[n] == be32(epoch)[0]);
    assert(info[n + 1] == be32(epoch)[1]);
    assert(info[n + 2] == be32(epoch)[2]);
    assert(info[n + 3] == be32(epoch)[3]);
}

/// The label of encryption keys.
pub open spec fn enc_label() -> Seq<u8> {
    "wevibe-enc-".spec_bytes()
}

/// The label of search keys.
pub open spec fn search_label() -> Seq<u8> {
    "wevibe-search-".spec_bytes()
}

/// The label of audit keys.
pub open spec fn audit_label() -> Seq<u8> {
    "wevibe-audit-".spec_bytes()
}

/// The key of one purpose and epoch under a master key.
pub open spec fn epoch_key(master_key: Seq<u8>, label: Seq<u8>, epoch: u32) -> Seq<u8> {
    hkdf_sha256(zero_salt(), master_key, epoch_info(label, epoch))
}

/// One key of an epoch: HKDF-SHA256 of the master key with a zero salt and the
/// purpose's label followed by the big-endian epoch as info.
fn derive_epoch_key(master_key: &[u8; 32], info_prefix: &[u8], epoch_bytes: &[u8; 4]) -> (okm: [u8; 32])
    ensures
        okm@ == hkdf_sha256(zero_salt(), master_key@, info_prefix@ + epoch_bytes@),
{
    let mut info: Vec<u8> = Vec::new();
    append_bytes(&mut info, info_prefix);
    append_bytes(&mut info, epoch_bytes);
    let salt = [0u8; 32];
    assert(salt@ =~= zero_salt());
    hkdf_sha256_32(&salt, master_key, info.as_slice())
}

/// The encryption, search and audit keys of `epoch` under `master_key`.
pub fn derive_epoch_keys(master_key: &[u8; 32], epoch: u32) -> (keys: EpochKeys)
    ensures
        keys.epoch == epoch,
        keys.enc_key@ == epoch_key(master_key@, enc_label(), epoch),
        keys.search_key@ == epoch_key(master_key@, search_label(), epoch),
        keys.audit_key@ == epoch_key(master_key@, audit_label(), epoch),
{
    let epoch_bytes = u32_to_be_bytes(epoch);
    EpochKeys {
        epoch,
        enc_key: derive_epoch_key(master_key, "wevibe-enc-".as_bytes(), &epoch_bytes),
        search_key: derive_epoch_key(master_key, "wevibe-search-".as_bytes(), &epoch_bytes),
        audit_key: derive_epoch_key(master_key, "wevibe-audit-".as_bytes(), &epoch_bytes),
    }
}

/// Whether `label` is the label of one of the three epoch key purposes.
pub open spec fn is_epoch_label(label: Seq<u8>) -> bool {
    label == enc_label() || label == search_label() || label == audit_label()
}

proof fn lemma_label_lengths()
    ensures
        enc_label().len() == 11,
        search_label().len() == 14,
        audit_label().len() == 13,
{
    broadcast use vstd::string::group_string_axioms;

    reveal_strlit("wevibe-enc-");
    reveal_strlit("wevibe-search-");
    reveal_strlit("wevibe-audit-");
    assert(is_ascii("wevibe-enc-"));
    assert(is_ascii("wevibe-search-"));
    assert(is_ascii("wevibe-audit-"));
}

/// Epoch keys are derived under pairwise distinct HKDF info strings: keys of different
/// purposes, or of different epochs, never share their derivation input.
pub proof fn lemma_epoch_info_injective(label1: Seq<u8>, epoch1: u32, label2: Seq<u8>, epoch2: u32)
    requires
        is_epoch_label(label1),
        is_epoch_label(label2),
        epoch_info(label1, epoch1) == epoch_info(label2, epoch2),
    ensures
        label1 == label2,
        epoch1 == epoch2,
{
    lemma_label_lengths();
    let a = epoch_info(label1, epoch1);
    let b = epoch_info(label2, epoch2);
    assert(a.len() == b.len());
    assert(label1.len() == label2.len());
    assert(label1 == label2);
    let n = label1.len() as int;
    assert(a.subrange(n, n + 4) =~= be32(epoch1));
    assert(b.subrange(n, n + 4) =~= be32(epoch2));
    lemma_be32_injective(epoch1, epoch2);
}

/// The blind search token of a keyword: lowercase hex of HMAC-SHA256 of the keyword's
/// UTF-8 bytes under the search key.
pub fn compute_blind_token(keyword: &str, search_key: &[u8; 32]) -> (token: String)
    ensures
        token@ == hex_lower(hmac_sha256(search_key@, keyword.spec_bytes())),
        token@.len() == 64,
        forall|i: int| 0 <= i < token@.len() ==> is_lower_hex_char(#[trigger] token@[i]),
{
    let result = hmac_sha256_32(search_key, keyword.as_bytes());
    proof {
        lemma_hex_lower(result@);
    }
    hex_encode(&result)
}

/// The 32-byte key that an English BIP39 phrase encodes, if it encodes one.
pub open spec fn mnemonic_key(phrase: Seq<char>) -> Option<Seq<u8>> {
    match bip39_entropy(phrase) {
        Ok(e) => if e.len() == 32 {
            Some(e)
        } else {
            None
        },
        Err(_) => None,
    }
}

/// The 24-word English recovery phrase of a master key.
pub fn master_key_to_mnemonic(master_key: &[u8; 32]) -> (result: Result<String, CryptoError>)
    ensures
        result matches Ok(phrase) && phrase@ == bip39_phrase(master_key@),
        result matches Ok(phrase) && mnemonic_key(phrase@) == Some(master_key@),
        result matches Ok(phrase) && is_phrase_of(phrase@, 24),
{
    match bip39_phrase_of(master_key) {
        Ok(phrase) => Ok(phrase),
        Err(text) => Err(CryptoError::MnemonicError(text)),
    }
}

/// The master key that a 24-word English recovery phrase encodes.
pub fn mnemonic_to_master_key(phrase: &str) -> (result: Result<[u8; 32], CryptoError>)
    ensures
        match bip39_entropy(phrase@) {
            Ok(e) => if e.len() == 32 {
                result matches Ok(k) && k@ == e
            } else {
                result matches Err(CryptoError::MnemonicError(msg)) && msg@
                    == entropy_length_message(e.len())
            },
            Err(t) => result matches Err(CryptoError::MnemonicError(msg)) && msg@ == t,
        },
        match mnemonic_key(phrase@) {
            Some(key) => result matches Ok(k) && k@ == key,
            None => result is Err,
        },
{
    let entropy = match bip39_entropy_of(phrase) {
        Ok(e) => e,
        Err(text) => {
            return Err(CryptoError::MnemonicError(text));
        },
    };
    if entropy.len() != 32 {
        return Err(CryptoError::MnemonicError(entropy_length_text(entropy.len())));
    }
    let key = first_32(entropy.as_slice());
    assert(key@ =~= entropy@);
    Ok(key)
}

/// The message for recovered entropy of `len` bytes.
pub open spec fn entropy_length_message(len: nat) -> Seq<char> {
    "expected 32 bytes of entropy, got "@ + decimal(len)
}

/// The message for recovered entropy of the wrong length.
fn entropy_length_text(len: usize) -> (text: String)
    ensures
        text@ == entropy_length_message(len as nat),
{
    let mut text = String::from_str("expected 32 bytes of entropy, got ");
    text.append(decimal_string(len).as_str());
    text
}

} // verus!
