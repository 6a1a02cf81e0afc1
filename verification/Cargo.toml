[package]
name = "dao_contracts"
version = "0.1.0"
edition = "2021"
publish = false

[dependencies]
cosmwasm-std = { version = "=3.0.11", features = ["staking"] }
cw-utils = "=3.0.0"
cw-storage-plus = "=3.0.1"
cw2 = "=3.0.0"
serde = { version = "=1.0.229", features = ["derive"] }
thiserror = "=2.0.21"
