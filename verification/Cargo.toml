[package]
name = "cosmwasm-chess"
version = "0.1.0"
edition = "2021"
publish = false

[dependencies]
chess-engine = "*"
cosmwasm-std = "1"
cw2 = "1"
cw-storage-plus = "1"
schemars = "0.8"
serde = { version = "1", default-features = false, features = ["derive"] }
thiserror = "1"
