[package]
name = "crypto_algor"
version = "0.1.0"
edition = "2021"
publish = false

[dependencies]
num-bigint = { version = "0.4", features = ["rand"] }
num-traits = "0.2"
rand = "0.8"
fraction = "0.15"
clap = "2.34"

[dev-dependencies]
tiny-keccak = { version = "2.0", features = ["sha3"] }
