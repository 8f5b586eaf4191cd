use wevibe_sdk_core::encoding::decimal_string;
use wevibe_sdk_core::errors::CryptoError;
use wevibe_sdk_core::shamir::split_secret_with_randomness;
use wevibe_sdk_core::share_json::{
    reconstruct_secret_json, split_secret_json, split_secret_json_with_randomness,
};
use wevibe_sdk_core::{
    decrypt_symmetric, encrypt_symmetric, generate_identity, master_key_to_mnemonic, open_envelope,
    seal_to_pubkey,
};

fn counting_secret() -> [u8; 32] {
    let mut s = [0u8; 32];
    for (i, b) in s.iter_mut().enumerate() {
        *b = (i as u8).wrapping_mul(37).wrapping_add(5);
    }
    s
}

fn fixed_randomness(threshold: usize) -> Vec<u8> {
    (0..32 * (threshold - 1)).map(|i| (i * 11 + 3) as u8).collect()
}

/// Compact JSON of a list of byte lists, written out by hand.
fn hand_json(lists: &[Vec<u8>]) -> String {
    let items: Vec<String> = lists
        .iter()
        .map(|l| {
            let nums: Vec<String> = l.iter().map(|b| b.to_string()).collect();
            format!("[{}]", nums.join(","))
        })
        .collect();
    format!("[{}]", items.join(","))
}

#[test]
fn split_json_is_compact_json_of_the_shares() {
    let secret = counting_secret();
    let random = fixed_randomness(3);
    let text = split_secret_json_with_randomness(&secret, 3, 5, &random).unwrap();
    let shares = split_secret_with_randomness(&secret, 3, 5, &random);
    assert_eq!(text, hand_json(&shares));
    assert!(text.starts_with("[[1,"));
    assert!(!text.contains(' '));
}

#[test]
fn split_json_then_reconstruct_json_recovers_the_secret() {
    let secret = counting_secret();
    let text = split_secret_json(&secret, 2, 3).unwrap();
    assert_eq!(reconstruct_secret_json(&text, 2).unwrap(), secret);
}

#[test]
fn reconstruct_json_from_a_subset_of_shares() {
    let secret = counting_secret();
    let random = fixed_randomness(3);
    let shares = split_secret_with_randomness(&secret, 3, 5, &random);
    let subset = vec![shares[4].clone(), shares[0].clone(), shares[2].clone()];
    assert_eq!(reconstruct_secret_json(&hand_json(&subset), 3).unwrap(), secret);
}

#[test]
fn split_json_refuses_a_short_secret() {
    match split_secret_json(&[1u8; 31], 2, 3) {
        Err(CryptoError::InvalidInput(m)) => assert_eq!(m, "secret must be 32 bytes"),
        other => panic!("unexpected {:?}", other),
    }
}

#[test]
fn reconstruct_json_refuses_text_that_is_not_json() {
    match reconstruct_secret_json("not json", 2) {
        Err(CryptoError::InvalidInput(m)) => assert!(m.starts_with("invalid shares JSON: ")),
        other => panic!("unexpected {:?}", other),
    }
    match reconstruct_secret_json("[[1,2,300]]", 2) {
        Err(CryptoError::InvalidInput(m)) => assert!(m.starts_with("invalid shares JSON: ")),
        other => panic!("unexpected {:?}", other),
    }
}

#[test]
fn reconstruct_json_reports_the_share_errors() {
    match reconstruct_secret_json("[[1,2]]", 2) {
        Err(CryptoError::InvalidInput(m)) => assert_eq!(m, "need at least 2 shares"),
        other => panic!("unexpected {:?}", other),
    }
    match reconstruct_secret_json("[[1,2],[2,3]]", 2) {
        Err(CryptoError::InvalidInput(m)) => assert_eq!(m, "share 0 has 2 bytes, expected 33"),
        other => panic!("unexpected {:?}", other),
    }
}

#[test]
fn decimal_numerals() {
    assert_eq!(decimal_string(0), "0");
    assert_eq!(decimal_string(7), "7");
    assert_eq!(decimal_string(10), "10");
    assert_eq!(decimal_string(1234567), "1234567");
}

#[test]
fn decrypted_plaintext_is_28_bytes_shorter_than_the_blob() {
    let key = [9u8; 32];
    let blob = encrypt_symmetric(b"twelve bytes", &key);
    let plain = decrypt_symmetric(&blob, &key).unwrap();
    assert_eq!(plain.len() + 28, blob.len());
}

#[test]
fn recovery_phrase_is_24_lowercase_words() {
    let phrase = master_key_to_mnemonic(&counting_secret()).unwrap();
    let words: Vec<&str> = phrase.split(' ').collect();
    assert_eq!(words.len(), 24);
    for w in words {
        assert!((3..=8).contains(&w.len()));
        assert!(w.chars().all(|c| c.is_ascii_lowercase()));
    }
}

#[test]
fn opened_plaintext_is_60_bytes_shorter_than_the_envelope() {
    let (_, _, x_priv, x_pub) = generate_identity();
    let blob = seal_to_pubkey(b"a short note", &x_pub);
    let plain = open_envelope(&blob, &x_priv).unwrap();
    assert_eq!(plain, b"a short note");
    assert_eq!(plain.len() + 60, blob.len());
}
