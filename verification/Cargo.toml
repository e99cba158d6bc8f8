[package]
name = "cw_registry"
version = "0.1.0"
edition = "2021"
publish = false

[dependencies]
cosmwasm-std = "1"
cosmwasm-storage = "1"
cw-asset = "3"
cw2 = "1"
cw-storage-plus = "1"
cw-controllers = "1"
schemars = "0.8"
serde = { version = "1", features = ["derive"] }
thiserror = "1"
