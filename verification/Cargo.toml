[package]
name = "music_player_backend"
version = "0.1.0"
edition = "2021"
publish = false

[dependencies]
sha2 = "=0.10.9"
strsim = "=0.11.1"
reqwest = { version = "=0.12.28", default-features = false, features = ["json"] }
serde = { version = "=1.0.229", features = ["derive"] }
serde_json = "=1.0.154"
tokio = { version = "=1.54.1", features = ["rt-multi-thread", "macros", "time", "process", "fs", "io-util", "sync"] }
uuid = { version = "=1.29.0", features = ["v4"] }
chrono = "=0.4.45"
thiserror = "=1.0.69"
async-trait = "=0.1.92"
base64 = "0.22"
