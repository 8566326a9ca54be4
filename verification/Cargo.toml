[package]
name = "tw_tokens"
version = "0.1.0"
edition = "2021"
publish = false

[dependencies]
lightningcss = "=1.0.0-alpha.72"
grass = "*"
csv = "*"
rayon = "*"
regex = "*"
serde = { version = "*", features = ["derive"] }
serde_json = "*"
