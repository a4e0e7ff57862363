[package]
name = "queries"
version = "0.1.0"
edition = "2021"
publish = false

[dependencies]
toml = "0.5"
syn = { version = "1", features = ["full"] }
quote = "1"
proc-macro2 = "1"
regex = "1"
