[package]
name = "cosmons"
version = "0.1.0"
edition = "2021"
publish = false

[dependencies]
cosmwasm-std = { version = "=0.11.2", features = ["iterator"] }
cw0 = "=0.3.2"
cw2 = "=0.3.2"
cw721 = "=0.3.2"
cw-storage-plus = { version = "=0.3.2", features = ["iterator"] }
schemars = "=0.7.6"
serde = { version = "=1.0.229", default-features = false, features = ["derive"] }
