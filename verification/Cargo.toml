[package]
name = "anime_library"
version = "0.1.0"
edition = "2021"
publish = false

[dependencies]
jwalk = "0.8"
libmpv2 = "*"
serde = { version = "1", features = ["derive"] }
