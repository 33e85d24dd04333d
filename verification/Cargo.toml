[package]
name = "eth_wallet"
version = "0.1.0"
edition = "2021"
publish = false

[dependencies]
k256 = "=0.13.4"
sha3 = "=0.10.9"
alloy = { version = "*", default-features = false, features = ["providers", "provider-http", "reqwest"] }
structopt = "0.3"
tokio = { version = "1", default-features = false, features = ["rt-multi-thread", "macros"] }
