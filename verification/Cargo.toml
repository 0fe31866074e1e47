[package]
name = "capital_gain_tax_ireland"
version = "0.1.0"
edition = "2021"
publish = false

[dependencies]
anyhow = "1"
calamine = "*"
csv = "1"
reqwest = { version = "0.12", default-features = false, features = ["blocking", "rustls-tls"] }
time = { version = "0.3", features = ["formatting", "parsing"] }
