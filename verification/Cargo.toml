[package]
name = "octatools"
version = "0.1.0"
edition = "2021"
publish = false

[dependencies]
md5 = "=0.7.0"
base64ct = { version = "=1.8.3", features = ["alloc"] }
clap = { version = "=4.6.7", features = ["derive"] }
hound = "3"
serde = { version = "1", features = ["derive"] }
serde_yaml = "0.9"
