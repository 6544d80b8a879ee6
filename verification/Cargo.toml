[package]
name = "evm_adapters"
version = "0.1.0"
edition = "2021"
publish = false

[dependencies]
ethers = { version = "2.0", default-features = false }
eyre = "0.6"
futures = "0.3"
tokio = { version = "1", features = ["rt", "rt-multi-thread", "macros"] }
