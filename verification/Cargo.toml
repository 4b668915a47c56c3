[package]
name = "spacezed"
version = "0.1.0"
edition = "2021"
publish = false

[dependencies]
anyhow = "1.0"
futures = "0.3"
libc = "0.2"
log = "0.4"
serde = { version = "1.0", features = ["derive"] }
serde_json = "1.0"
smol = "2.0"
which = "6.0"
