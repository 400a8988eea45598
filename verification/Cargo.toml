[package]
name = "onyx_image"
version = "0.1.0"
edition = "2021"
publish = false

[dependencies]
anyhow = "1"
binrw = "*"
cargo_metadata = "*"
clap = { version = "4", features = ["derive"] }
flate2 = "1"
memchr = "2"
rustc_version = "0.4"
serde = { version = "1", features = ["derive"] }
toml = "*"
xshell = "0.2"
