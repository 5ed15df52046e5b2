[package]
name = "cyberpixie"
version = "0.1.0"
edition = "2021"
publish = false

[dependencies]
embedded-io = "=0.4.0"
postcard = { version = "=1.1.3", features = ["experimental-derive"] }
serde = { version = "=1.0.229", default-features = false, features = ["derive"] }
endian_codec = "=0.1.1"
heapless = { version = "=0.7.17", default-features = false }
