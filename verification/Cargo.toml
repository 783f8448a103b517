[package]
name = "cosmos_coins"
version = "0.1.0"
edition = "2021"
publish = false

[dependencies]
primitive-types = "=0.12.2"
hex = "=0.4.3"
bech32 = "=0.9.1"
lru = "=0.12.5"
serde = { version = "=1.0.229", features = ["derive"] }
ibc-proto = { version = "*", default-features = false }
