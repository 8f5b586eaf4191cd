# wevibe_sdk_core

The cryptographic core of the WeVibe clients, written in Verus: Ed25519 signatures,
X25519 sealed envelopes, AES-256-GCM, HKDF epoch keys, HMAC blind search tokens, BIP39
recovery phrases, secp256k1 key material, and Shamir secret sharing over GF(2^8).

## Layout

- `src/gf256.rs` — GF(2^8) arithmetic and its field laws (proved with the bit-vector solver).
- `src/poly.rs` — polynomials over GF(2^8): Horner evaluation, division by a linear
  factor, the root bound, and Lagrange interpolation at zero.
- `src/shamir.rs` — splitting and reconstructing 32-byte secrets, and the proof that any
  `threshold` distinct shares of a split reconstruct the secret.
- `src/share_json.rs` — shares carried as JSON text (`serde_json`): the compact text of a
  split, and reconstruction from such a text.
- `src/crypto.rs` — identities, signatures, envelopes, symmetric encryption, epoch keys,
  blind tokens and recovery phrases, with their round-trip guarantees.
- `src/identity.rs`, `src/secp256k1.rs`, `src/types.rs` — identities, secp256k1 keys and
  network records.
- `src/primitives.rs`, `src/encoding.rs`, `src/rng.rs` — the calls into the primitive
  crates, each with the contract it is trusted to meet, and the decimal and big-endian
  encodings.
- `app/` — WebAssembly bindings, serde forms of the records, error messages.

## Left out

- `LocalIdentity` does not clear its keys when dropped: Verus has no `Drop`, and the
  `zeroize` derives cannot stand on a verified type. (The AES keys of envelopes are
  still wiped after use.)
- `MemoryPack`, whose fields hold floats, lives in `app/` with the serde forms of the
  records.
