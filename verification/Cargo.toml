[package]
name = "client_hello_sni"
version = "0.1.0"
edition = "2021"
publish = false

[dependencies]
byteorder = "1"
tokio = { version = "1", default-features = false, features = ["io-util"] }
