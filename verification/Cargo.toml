[package]
name = "generator_proxy"
version = "0.1.0"
edition = "2021"
publish = false

[dependencies]
astroport = "2"
cosmwasm-std = "1"
cw2 = "0.15"
cw20 = "0.15"
