[package]
name = "minebtc"
version = "0.1.0"
edition = "2021"
publish = false

[dependencies]
anchor-lang = "=0.31.2"
anchor-spl = { version = "=0.31.2", default-features = false, features = ["token", "token_2022", "associated_token"] }
mpl-core = "=0.11.2"
borsh = { version = "=1.8.1", features = ["derive"] }
