[package]
name = "emucap"
version = "0.1.0"
edition = "2021"
publish = false

[dependencies]
anyhow = "1"
base64 = "0.22"
clap = { version = "4", features = ["derive"] }
hex = "0.4"
libc = "0.2"
rmcp = { version = "*", features = ["server"] }
serde_json = "1"
sha1 = "0.10"
sha2 = "0.10"
thiserror = "2"
tokio = { version = "1", features = ["io-util", "io-std", "sync", "rt", "macros", "time"] }
ulid = "*"

[dev-dependencies]
tempfile = "3"
