[package]
name = "nft_escrow"
version = "0.1.0"
edition = "2021"
publish = false

[dependencies]
cosmwasm-std = "=2.3.5"
cw2 = "=2.0.0"
cw721 = "=0.22.0"
cw-storage-plus = "=2.0.0"
schemars = "=0.8.22"
serde = { version = "=1.0.229", features = ["derive"] }
thiserror = "*"
