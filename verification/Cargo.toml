[package]
name = "cw20_clawback"
version = "0.1.0"
edition = "2021"
publish = false

[dependencies]
cosmwasm-std = { version = "=0.10.1", features = ["iterator"] }
cosmwasm-storage = { version = "=0.10.1", features = ["iterator"] }
cw0 = "=0.2.3"
cw2 = "=0.2.3"
cw20 = "=0.2.3"
schemars = "=0.7.6"
serde = { version = "1", features = ["derive"] }
thiserror = "1"
