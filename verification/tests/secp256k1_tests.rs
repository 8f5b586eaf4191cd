use wevibe_sdk_core::errors::CryptoError;
use wevibe_sdk_core::secp256k1::PreIdentity;

#[test]
fn test_random_keypair() {
    let id1 = PreIdentity::random().unwrap();
    let id2 = PreIdentity::random().unwrap();
    assert_ne!(id1.secret_key_bytes(), id2.secret_key_bytes());
}

#[test]
fn test_deterministic_derivation() {
    let parent: [u8; 32] = [0x42u8; 32];
    let label = b"test-derivation";
    let id1 = PreIdentity::derive(&parent, label).unwrap();
    let id2 = PreIdentity::derive(&parent, label).unwrap();
    assert_eq!(id1.secret_key_bytes(), id2.secret_key_bytes());
}

#[test]
fn test_different_labels_different_keys() {
    let parent: [u8; 32] = [0x42u8; 32];
    let id1 = PreIdentity::derive(&parent, b"label-a").unwrap();
    let id2 = PreIdentity::derive(&parent, b"label-b").unwrap();
    assert_ne!(id1.secret_key_bytes(), id2.secret_key_bytes());
}

#[test]
fn test_roundtrip_secret_key() {
    let original = PreIdentity::random().unwrap();
    let bytes = original.secret_key_bytes();
    let restored = PreIdentity::from_secret_bytes(&bytes).unwrap();
    assert_eq!(original.secret_key_bytes(), restored.secret_key_bytes());
}

#[test]
fn test_public_key_format() {
    let id = PreIdentity::random().unwrap();
    let pk_bytes = id.public_key_bytes();
    assert_eq!(pk_bytes.len(), 33);
    assert!(pk_bytes[0] == 0x02 || pk_bytes[0] == 0x03);
}

#[test]
fn derivation_matches_hmac_sha512_vector() {
    let id = PreIdentity::derive(&[0x42u8; 32], b"test-derivation").unwrap();
    assert_eq!(
        hex::encode(id.secret_key_bytes()),
        "ddae0af7a8d8db88b6f192cd75da9127c609feda38ffbef47861abdcc3a62f23"
    );
}

#[test]
fn secret_one_has_the_generator_as_public_key() {
    let mut one = [0u8; 32];
    one[31] = 1;
    let id = PreIdentity::from_secret_bytes(&one).unwrap();
    assert_eq!(
        hex::encode(id.public_key_bytes()),
        "0279be667ef9dcbbac55a06295ce870b07029bfcdb2dce28d959f2815b16f81798"
    );
}

#[test]
fn invalid_secrets_are_refused() {
    assert!(matches!(
        PreIdentity::from_secret_bytes(&[0u8; 32]),
        Err(CryptoError::InvalidPrivateKey)
    ));
    assert!(matches!(
        PreIdentity::from_secret_bytes(&[0xffu8; 32]),
        Err(CryptoError::InvalidPrivateKey)
    ));
    let order: [u8; 32] =
        hex::decode("fffffffffffffffffffffffffffffffebaaedce6af48a03bbfd25e8cd0364141")
            .unwrap()
            .try_into()
            .unwrap();
    assert!(PreIdentity::from_secret_bytes(&order).is_err());
    let mut below = order;
    below[31] = 0x40;
    assert_eq!(PreIdentity::from_secret_bytes(&below).unwrap().secret_key_bytes(), below);
}
