[package]
name = "tls_hello"
version = "0.1.0"
edition = "2021"
publish = false

[dependencies]
p256 = { version = "*", features = ["ecdh"] }
sha2 = "*"

[dev-dependencies]
rand_core = { version = "*", features = ["getrandom"] }
