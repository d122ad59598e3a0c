[package]
name = "substrate-stellar-sdk"
version = "0.3.0"
edition = "2021"
publish = false

[dependencies]
base64 = "=0.13.1"
hex = "=0.4.3"
serde = { version = "=1.0.229", features = ["derive"] }
serde_json = "=1.0.154"
sp-io = { version = "*", default-features = false }
sp-runtime = { version = "*", default-features = false }
sp-std = { version = "*", default-features = false }
thiserror = "=1.0.69"
ureq = "=2.12.1"
