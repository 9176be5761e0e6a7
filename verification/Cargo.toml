[package]
name = "anyswap"
version = "0.1.0"
edition = "2021"
publish = false

[dependencies]
primitive-types = { version = "=0.14.0", default-features = false }
anchor-lang = "=1.2.1"
anchor-spl = "=1.2.1"
