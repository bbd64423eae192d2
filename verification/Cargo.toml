[package]
name = "kalicut"
version = "0.1.2"
edition = "2021"
publish = false

[dependencies]
rodio = { version = "0.20", default-features = false }
libmpv2 = "4.1"
libmpv2-sys = "4.0.1"
serde = { version = "1", features = ["derive"] }
serde_json = "1"
