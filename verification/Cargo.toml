[package]
name = "rvrrpd"
version = "0.1.0"
edition = "2021"
publish = false

[dependencies]
hmac = "0.12"
sha2 = "0.10"
sha3 = "0.10"
scrypt = "0.2"
rand = "0.8"
libc = "0.2"
getopts = "0.2"
serde = { version = "1", features = ["derive"] }
serde_json = "1"
toml = "0.5"
chrono = "0.4"
ctrlc = "3"
daemonize = "0.5"
