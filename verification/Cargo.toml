[package]
name = "wevibe_sdk_core"
version = "0.1.0"
edition = "2021"
publish = false

[dependencies]
aes-gcm = "0.10"
bip39 = "2"
ed25519-dalek = { version = "2", features = ["rand_core"] }
hex = "0.4"
hkdf = "0.12"
hmac = "0.12"
js-sys = "0.3"
k256 = { version = "0.13", features = ["ecdsa"] }
rand = "0.8"
serde = { version = "1", features = ["derive"] }
serde_json = "1"
sha2 = "0.10"
thiserror = "1"
wasm-bindgen = "0.2"
x25519-dalek = { version = "2", features = ["static_secrets"] }
zeroize = "1"
