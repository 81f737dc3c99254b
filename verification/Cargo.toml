[package]
name = "nois_oracle"
version = "0.1.0"
edition = "2021"
publish = false

[dependencies]
cosmwasm-std = "*"
cosmwasm-schema = "*"
cw-storage-plus = "*"
serde = { version = "*", features = ["derive"] }
thiserror = "*"
