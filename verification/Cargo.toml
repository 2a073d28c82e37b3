[package]
name = "pmdk"
version = "0.9.2"
edition = "2021"
publish = false

[dependencies]
crossbeam-queue = "0.2"
libc = "0.2"
serde = { version = "1", features = ["derive"] }
