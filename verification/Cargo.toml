[package]
name = "mandrake"
version = "0.1.0"
edition = "2021"
publish = false

[dependencies]
uuid = { version = "1", features = ["v7"] }
time = { version = "0.3", features = ["formatting", "parsing"] }
base64 = "0.22"
ed25519-dalek = { version = "2", features = ["rand_core"] }
rand = "0.8"
sha2 = "0.10"
serde = { version = "1", features = ["derive"] }
serde_json = "1"
tokio = { version = "1", features = ["process", "fs", "io-util", "rt", "macros", "sync"] }
reqwest = { version = "0.12", default-features = false, features = ["rustls-tls", "stream"] }
thiserror = "2"
