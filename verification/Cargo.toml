[package]
name = "coin_cards"
version = "0.1.0"
edition = "2021"
publish = false

[dependencies]
serde = { version = "1", features = ["derive"] }
serde_json = "1"
toml = "0.9"
rand = "0.9"
rand_chacha = "0.9"
glam = "0.30"
fast_poisson = "1"
geo = "0.31"
