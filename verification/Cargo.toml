[package]
name = "dynamic"
version = "0.1.0"
edition = "2021"
publish = false

[dependencies]
heck = "=0.5.0"
indexmap = "=2.14.2"
serde = { version = "=1.0.229", features = ["derive"] }
thiserror = "=1.0.69"
sea-orm = { version = "=1.1.20", default-features = false }
juniper = { version = "=0.16.2", default-features = false }
