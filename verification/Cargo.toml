[package]
name = "staking"
version = "0.1.0"
edition = "2021"
publish = false

[dependencies]
cosmwasm-schema = "=2.3.5"
cosmwasm-std = "=2.3.5"
cw-ownable = "=2.1.0"
cw-storage-plus = "=2.0.0"
cw-utils = "=2.0.0"
cw20 = "=2.0.0"
cw20-base = "=2.0.0"
thiserror = "=1.0.69"
