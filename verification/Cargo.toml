[package]
name = "ecdsa_mpc"
version = "0.1.0"
edition = "2021"
publish = false

[dependencies]
curv-kzen = "=0.9.0"
kzen-paillier = "=0.4.2"
sha2 = "=0.9.9"
zeroize = "=1.4.3"
serde = { version = "=1.0.229", features = ["derive"] }
log = "=0.4.34"
