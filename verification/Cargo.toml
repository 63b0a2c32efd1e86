[package]
name = "roulette_game"
version = "0.1.0"
edition = "2021"
publish = false

[dependencies]
base64 = "0.13"
cosmwasm-schema = "1.5"
cosmwasm-std = "1.5"
cw-storage-plus = "1.2"
cw2 = "1.1"
cw20 = "1.1"
cw721 = "0.18"
rand_chacha = "0.3"
sha2 = "0.10"
thiserror = "1"
