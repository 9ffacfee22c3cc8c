[package]
name = "lsd_wrapper"
version = "0.1.0"
edition = "2021"
publish = false

[dependencies]
cosmwasm-std = "1"
cosmwasm-schema = "1"
cw-storage-plus = "1"
cw20 = "1"
cw20-base = { version = "1", features = ["library"] }
serde = "1"
schemars = "0.8"
