[package]
name = "cw_asset_manager"
version = "0.1.0"
edition = "2021"
publish = false

[dependencies]
cosmwasm-std = "1.5"
cosmwasm-schema = "1.5"
cw-storage-plus = "1.2"
cw20 = "1.1"
cw2 = "1.1"
thiserror = "1.0"

[dev-dependencies]
rlp = "0.5"
