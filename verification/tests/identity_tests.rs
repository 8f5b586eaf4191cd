use hkdf::Hkdf;
use sha2::Sha256;
use wevibe_sdk_core::crypto::verify;
use wevibe_sdk_core::identity::{Identity, LocalIdentity, SolanaIdentity};

#[test]
fn test_local_identity_generates() {
    let id = LocalIdentity::generate().unwrap();
    assert_eq!(id.ed25519_pubkey_hex().len(), 64);
    assert_eq!(id.x25519_pubkey_hex().len(), 64);
}

#[test]
fn test_local_identity_signs() {
    let id = LocalIdentity::generate().unwrap();
    let msg = b"test message";
    let sig_hex = id.sign_hex(msg).unwrap();
    assert_eq!(sig_hex.len(), 128);
}

#[test]
fn test_local_identity_sign_verify_roundtrip() {
    let id = LocalIdentity::generate().unwrap();
    let msg = b"wevibe network test";
    let sig_hex = id.sign_hex(msg).unwrap();
    let sig_bytes = hex::decode(&sig_hex).unwrap();
    let pub_bytes = hex::decode(id.ed25519_pubkey_hex()).unwrap();

    let mut pub_arr = [0u8; 32];
    pub_arr.copy_from_slice(&pub_bytes);
    let mut sig_arr = [0u8; 64];
    sig_arr.copy_from_slice(&sig_bytes);
    assert!(verify(&pub_arr, &sig_arr, msg));
}

#[test]
fn test_org_membership() {
    let id = LocalIdentity::generate().unwrap().with_org("acme-corp");
    assert_eq!(id.org_ids(), vec!["acme-corp"]);
}

#[test]
fn test_solana_identity_sign_returns_err() {
    let id = SolanaIdentity::new([0u8; 32], [0u8; 32]);
    assert!(id.sign_hex(b"test").is_err());
}

#[test]
fn local_identity_from_known_keys() {
    let seed: [u8; 32] =
        hex::decode("9d61b19deffd5a60ba844af492ec2cc44449c5697b326919703bac031cae7f60")
            .unwrap()
            .try_into()
            .unwrap();
    let public: [u8; 32] =
        hex::decode("d75a980182b10ab7d54bfed3c964073a0ee172f3daa62325af021a68f707511a")
            .unwrap()
            .try_into()
            .unwrap();
    let id = LocalIdentity::from_bytes(seed, public, [1u8; 32], [0xabu8; 32]);
    assert_eq!(
        id.ed25519_pubkey_hex(),
        "d75a980182b10ab7d54bfed3c964073a0ee172f3daa62325af021a68f707511a"
    );
    assert_eq!(id.x25519_pubkey_hex(), "ab".repeat(32));
    assert_eq!(
        id.sign_hex(b"").unwrap(),
        "e5564300c360ac729086e2cc806e828a84877f1eb8e5d974d873e065224901555fb8821590a33bacc61e39701cf9b46bd25bf5f0595bbe24655141438e7a100b"
    );
    assert!(id.org_ids().is_empty());
}

#[test]
fn org_membership_accumulates_in_order() {
    let id = SolanaIdentity::new([0u8; 32], [0u8; 32]);
    assert!(id.org_ids().is_empty());
    assert_eq!(id.ed25519_pubkey_hex(), "00".repeat(32));
    let id = LocalIdentity::from_bytes([0u8; 32], [1u8; 32], [2u8; 32], [3u8; 32])
        .with_org("first")
        .with_org("second");
    assert_eq!(id.org_ids(), vec!["first", "second"]);
    assert_eq!(id.x25519_pubkey_hex(), "03".repeat(32));
}

#[test]
fn x25519_key_is_derived_from_the_seed() {
    let seed = [42u8; 32];
    let (ed_priv, ed_pub, x_priv, x_pub) = wevibe_sdk_core::generate_identity_from_seed(&seed);
    assert_eq!(ed_priv, seed);
    let mut expected = [0u8; 32];
    Hkdf::<Sha256>::new(Some(&[0u8; 32]), &seed)
        .expand(b"wevibe-x25519-v1", &mut expected)
        .unwrap();
    assert_eq!(x_priv, expected);
    let public = x25519_dalek::PublicKey::from(&x25519_dalek::StaticSecret::from(expected));
    assert_eq!(x_pub, *public.as_bytes());
    assert_eq!(
        ed_pub,
        ed25519_dalek::SigningKey::from_bytes(&seed).verifying_key().to_bytes()
    );
    assert_eq!(wevibe_sdk_core::generate_identity_from_seed(&seed), (ed_priv, ed_pub, x_priv, x_pub));
}

#[test]
fn generated_identity_signs_with_128_hex_characters() {
    let id = wevibe_sdk_core::LocalIdentity::generate().unwrap();
    let sig = wevibe_sdk_core::Identity::sign_hex(&id, b"test message").unwrap();
    assert_eq!(sig.len(), 128);
}
