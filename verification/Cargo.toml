[package]
name = "arthneura_core"
version = "0.1.0"
edition = "2021"
publish = false

[dependencies]
ml-dsa = "=0.1.2"
rs_merkle = "=1.5.0"
sp-crypto-hashing = "=0.1.0"
parity-scale-codec = "=3.7.5"
hex = "=0.4.3"
base64 = "=0.23.1"
argon2 = "=0.6.0"
chacha20poly1305 = "=0.11.0"
getrandom = "=0.4.3"
zeroize = "=1.9.1"
serde = { version = "=1.0.229", features = ["derive"] }
serde_json = "=1.0.154"
thiserror = "=2.0.21"
subxt = "0.38"
subxt-signer = { version = "0.38", default-features = false, features = ["sr25519", "subxt", "std"] }
tokio = { version = "1", features = ["macros", "rt-multi-thread"] }
