[package]
name = "raw_socket"
version = "0.1.0"
edition = "2021"
publish = false

[dependencies]
libc = "*"
socket2 = "*"
tokio = { version = "*", features = ["net", "rt", "io-util"] }
futures = "*"
