[package]
name = "idunn_drivers"
version = "0.1.0"
edition = "2021"
publish = false

[dependencies]
anyhow = "1"
chrono = "0.4"
libc = "0.2"
rmp-serde = "1"
serde = { version = "1", features = ["derive"] }
sha2 = "0.10"
toml = "0.9"
uuid = { version = "1", features = ["v4"] }
