[package]
name = "oprfs"
version = "0.1.0"
edition = "2021"
publish = false

[dependencies]
curve25519-dalek = { version = "=4.1.3", features = ["rand_core", "digest"] }
sha2 = "=0.10.9"
rand = "=0.9.5"
fhe = "=0.1.1"
fhe-traits = "=0.1.1"
fhe-math = "=0.1.1"
