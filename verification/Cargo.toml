[package]
name = "perfin"
version = "0.1.0"
edition = "2021"
publish = false

[dependencies]
regex = "*"
sha2 = "*"
base16ct = { version = "*", features = ["alloc"] }
chrono = "*"
indexmap = "*"
serde = { version = "*", features = ["derive"] }
serde_yaml = "*"
serde_json = "*"
csv = "*"
