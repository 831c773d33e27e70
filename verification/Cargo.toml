[package]
name = "pvm_contracts"
version = "0.1.0"
edition = "2021"
publish = false

[dependencies]
blake2 = "0.10"
proc-macro2 = "1"
quote = "1"
syn = { version = "2", features = ["full"] }

[dev-dependencies]
parity-scale-codec = "3"
