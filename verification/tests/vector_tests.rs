use wevibe_sdk_core::crypto::{
    compute_blind_token, decrypt_symmetric, derive_epoch_keys, master_key_to_mnemonic,
    mnemonic_to_master_key, open_envelope, seal_with, sign, verify,
};
use wevibe_sdk_core::errors::CryptoError;

fn bytes32(text: &str) -> [u8; 32] {
    hex::decode(text).unwrap().try_into().unwrap()
}

fn sequential() -> [u8; 32] {
    let mut s = [0u8; 32];
    for (i, b) in s.iter_mut().enumerate() {
        *b = i as u8;
    }
    s
}

#[test]
fn epoch_keys_match_hkdf_vectors() {
    let keys = derive_epoch_keys(&sequential(), 7);
    assert_eq!(keys.epoch, 7);
    assert_eq!(
        hex::encode(keys.enc_key),
        "69370df125701b3907760f0dda9cc29e38c722134d312b741bb2a72ab91ecaab"
    );
    assert_eq!(
        hex::encode(keys.search_key),
        "06e64ff430f55c293b5b0738e88cabbcfcc22b42e700d249902b03c7806fa2a7"
    );
    assert_eq!(
        hex::encode(keys.audit_key),
        "b151ab4dd7db621e75987c5bb075705292cf9f843b79b4e138f0ac209c1bab50"
    );
}

#[test]
fn blind_token_matches_hmac_vector() {
    assert_eq!(
        compute_blind_token("redis", &sequential()),
        "04b5de6ac6bfabe2a583f9d0aa85b88700bfd676b4dbf717f1d573c07416b203"
    );
}

#[test]
fn ed25519_rfc8032_vector() {
    let seed = bytes32("9d61b19deffd5a60ba844af492ec2cc44449c5697b326919703bac031cae7f60");
    let public = bytes32("d75a980182b10ab7d54bfed3c964073a0ee172f3daa62325af021a68f707511a");
    let sig = sign(&seed, b"").unwrap();
    assert_eq!(
        hex::encode(sig),
        "e5564300c360ac729086e2cc806e828a84877f1eb8e5d974d873e065224901555fb8821590a33bacc61e39701cf9b46bd25bf5f0595bbe24655141438e7a100b"
    );
    assert!(verify(&public, &sig, b""));
    let sig2 = sign(&seed, b"wevibe").unwrap();
    assert_eq!(
        hex::encode(sig2),
        "6e6c5b854bdfe49cbe6a12f7a3fd080ed9c797136db655aff4925588338e1ed9ff44eabfac464bc8b815e109eb3ccf22d9e175c7157b79ca05f3a57839a34c0c"
    );
    assert!(!verify(&public, &sig2, b""));
}

#[test]
fn verify_rejects_an_undecodable_key() {
    let seed = bytes32("9d61b19deffd5a60ba844af492ec2cc44449c5697b326919703bac031cae7f60");
    let sig = sign(&seed, b"x").unwrap();
    // y = 2 is not the y-coordinate of a point on the curve
    let mut bad = [0u8; 32];
    bad[0] = 2;
    assert!(!verify(&bad, &sig, b"x"));
}

#[test]
fn seal_with_known_keys_and_nonce() {
    let recipient_secret = [7u8; 32];
    let recipient = bytes32("13be4feaeaf204c7fd3358fc9c00721881d174278128227ec674f37f7fe97b6d");
    let mut nonce = [0u8; 12];
    for (i, b) in nonce.iter_mut().enumerate() {
        *b = i as u8;
    }
    let blob = seal_with(b"sealed note", &recipient, &[9u8; 32], &nonce);
    assert_eq!(
        hex::encode(&blob),
        "57db4b359f23ae5e146e4e2512056704722506348c150c14753d0c933d04d421000102030405060708090a0b1f4759774243d52545ab4a5e189c02a70e7bad17912e8ba1974916"
    );
    assert_eq!(open_envelope(&blob, &recipient_secret).unwrap(), b"sealed note");
}

#[test]
fn open_envelope_errors() {
    assert!(matches!(
        open_envelope(&[0u8; 59], &[1u8; 32]),
        Err(CryptoError::EnvelopeTooShort(59))
    ));
    assert!(matches!(
        open_envelope(&[0u8; 60], &[1u8; 32]),
        Err(CryptoError::DecryptionFailed)
    ));
}

#[test]
fn decrypt_symmetric_known_blob() {
    let blob = hex::decode("000102030405060708090a0b7b86da7f149b2df6f001f922f211f02f27864bd48b")
        .unwrap();
    assert_eq!(decrypt_symmetric(&blob, &[0x11u8; 32]).unwrap(), b"hello");
    assert!(matches!(
        decrypt_symmetric(&blob, &[0x12u8; 32]),
        Err(CryptoError::DecryptionFailed)
    ));
    assert!(matches!(
        decrypt_symmetric(&blob[..27], &[0x11u8; 32]),
        Err(CryptoError::BlobTooShort(27))
    ));
}

#[test]
fn mnemonic_known_phrases() {
    let zeros = master_key_to_mnemonic(&[0u8; 32]).unwrap();
    assert_eq!(zeros, format!("{}art", "abandon ".repeat(23)));
    let ones = master_key_to_mnemonic(&[0xffu8; 32]).unwrap();
    assert_eq!(ones, format!("{}vote", "zoo ".repeat(23)));
    assert_eq!(mnemonic_to_master_key(&zeros).unwrap(), [0u8; 32]);
    assert_eq!(mnemonic_to_master_key(&ones).unwrap(), [0xffu8; 32]);
}

#[test]
fn mnemonic_roundtrip() {
    let key = sequential();
    let phrase = master_key_to_mnemonic(&key).unwrap();
    assert_eq!(phrase.split(' ').count(), 24);
    assert_eq!(mnemonic_to_master_key(&phrase).unwrap(), key);
}

#[test]
fn mnemonic_errors() {
    assert!(matches!(
        mnemonic_to_master_key("not a phrase"),
        Err(CryptoError::MnemonicError(_))
    ));
    // a valid 12-word phrase encodes 16 bytes, not 32
    let twelve = format!("{}about", "abandon ".repeat(11));
    match mnemonic_to_master_key(&twelve) {
        Err(CryptoError::MnemonicError(msg)) => {
            assert_eq!(msg, "expected 32 bytes of entropy, got 16")
        }
        other => panic!("unexpected {:?}", other),
    }
}
