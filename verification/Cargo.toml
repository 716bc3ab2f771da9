[package]
name = "cw_zll"
version = "0.1.0"
edition = "2021"
publish = false

[dependencies]
cosmwasm-std = "=1.5.11"
cw-storage-plus = "=1.2.0"
cw2 = "=1.1.2"
cw20 = "=1.1.2"
astroport = "=5.9.0"
serde = { version = "=1.0.229", features = ["derive"] }
schemars = "=0.8.22"
thiserror = "=1.0.69"
