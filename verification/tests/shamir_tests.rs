use wevibe_sdk_core::errors::CryptoError;
use wevibe_sdk_core::gf256::{gf256_inv, gf256_mul};
use wevibe_sdk_core::poly::gf256_poly_eval;
use wevibe_sdk_core::shamir::{reconstruct_secret, split_secret, split_secret_with_randomness};

fn sequential_secret() -> [u8; 32] {
    let mut s = [0u8; 32];
    for (i, b) in s.iter_mut().enumerate() {
        *b = i as u8;
    }
    s
}

fn vector_randomness() -> Vec<u8> {
    (0..64).map(|i: u32| ((0x30 + 7 * i) & 0xff) as u8).collect()
}

#[test]
fn gf256_products_match_the_aes_field() {
    assert_eq!(gf256_mul(0x57, 0x83), 0xc1);
    assert_eq!(gf256_mul(0x53, 0xca), 0x01);
    assert_eq!(gf256_mul(0x00, 0xff), 0x00);
    assert_eq!(gf256_mul(0x01, 0x9a), 0x9a);
    assert_eq!(gf256_mul(0x80, 0x02), 0x1b);
}

#[test]
fn gf256_inverses() {
    assert_eq!(gf256_inv(0), 0);
    assert_eq!(gf256_inv(1), 1);
    assert_eq!(gf256_inv(0x53), 0xca);
    for a in 1..=255u8 {
        assert_eq!(gf256_mul(a, gf256_inv(a)), 1);
    }
}

#[test]
fn gf256_products_commute_and_associate() {
    for a in [0u8, 1, 2, 0x53, 0x80, 0xff] {
        for b in [0u8, 3, 0x1b, 0xca, 0xfe] {
            assert_eq!(gf256_mul(a, b), gf256_mul(b, a));
            for c in [1u8, 7, 0x99] {
                assert_eq!(gf256_mul(gf256_mul(a, b), c), gf256_mul(a, gf256_mul(b, c)));
            }
        }
    }
}

#[test]
fn polynomial_evaluation() {
    assert_eq!(gf256_poly_eval(&[], 5), 0);
    assert_eq!(gf256_poly_eval(&[7, 9, 11], 0), 7);
    assert_eq!(gf256_poly_eval(&[1, 2, 3], 1), 1 ^ 2 ^ 3);
    // 3 + 2x at x = 2: 3 ^ (2 * 2) = 3 ^ 4
    assert_eq!(gf256_poly_eval(&[3, 2], 2), 7);
}

#[test]
fn split_with_known_randomness() {
    let shares = split_secret_with_randomness(&sequential_secret(), 3, 4, &vector_randomness());
    let expected = [
        "01077a1d38030e090c0f1275100b060104172a0d68131e191c1f0225001b161114",
        "02bc72cd2873060f6af9ac48edf6433c2f6cb98678a3d6690c297c83a6bd93ec49",
        "03bb09d213740d0061feb737f6f14833246b829903a4dd66072e67bcbdba98e342",
        "049dc56e3a1557482a202248b11eeada973b0fbf87b3f1771586848260cf4c7ca8",
    ];
    assert_eq!(shares.len(), 4);
    for (share, want) in shares.iter().zip(expected.iter()) {
        assert_eq!(hex::encode(share), *want);
    }
}

#[test]
fn any_three_of_five_recover_a_three_threshold_secret() {
    let secret = sequential_secret();
    let shares = split_secret(&secret, 3, 5);
    for a in 0..5 {
        for b in (a + 1)..5 {
            for c in (b + 1)..5 {
                let picked = vec![shares[c].clone(), shares[a].clone(), shares[b].clone()];
                assert_eq!(reconstruct_secret(&picked, 3).unwrap(), secret);
            }
        }
    }
    assert_eq!(reconstruct_secret(&shares, 3).unwrap(), secret);
}

#[test]
fn reconstruct_refuses_too_few_shares() {
    match reconstruct_secret(&[], 2) {
        Err(CryptoError::InvalidInput(msg)) => assert_eq!(msg, "need at least 2 shares"),
        other => panic!("unexpected {:?}", other),
    }
}

#[test]
fn reconstruct_refuses_duplicate_points() {
    let shares = split_secret(&[9u8; 32], 2, 3);
    let dup = vec![shares[1].clone(), shares[1].clone()];
    match reconstruct_secret(&dup, 2) {
        Err(CryptoError::InvalidInput(msg)) => assert_eq!(msg, "duplicate share indices"),
        other => panic!("unexpected {:?}", other),
    }
}

#[test]
fn reconstruct_refuses_wrong_share_size() {
    let shares = split_secret(&[9u8; 32], 2, 3);
    let mut short = shares[2].clone();
    short.pop();
    match reconstruct_secret(&[shares[0].clone(), short], 2) {
        Err(CryptoError::InvalidInput(msg)) => {
            assert_eq!(msg, "share 1 has 32 bytes, expected 33")
        }
        other => panic!("unexpected {:?}", other),
    }
}
