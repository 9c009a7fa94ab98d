[package]
name = "exodium"
version = "0.1.0"
edition = "2021"
publish = false

[dependencies]
serde = { version = "=1.0.229", features = ["derive"] }
serde_json = "=1.0.154"
zip = "=9.2.2"
walkdir = "=2.5.0"
libc = "=0.2.191"
log = "=0.4.35"
fs4 = "=1.1.0"
flate2 = "*"
junction = "*"
tracing-subscriber = { version = "*", features = ["fmt", "env-filter"] }
tracing-log = "*"
