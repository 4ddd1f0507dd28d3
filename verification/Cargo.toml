[package]
name = "txnsfr"
version = "0.1.0"
edition = "2021"
publish = false

[dependencies]
ark-bn254 = "=0.6.0"
ark-ff = "=0.6.0"
ark-serialize = "=0.6.0"
solana-bn254 = "=3.2.1"
light-hasher = { version = "=7.0.0", features = ["poseidon"] }
solana-program = "=5.1.0"

[dev-dependencies]
num-bigint = "=0.5.1"
