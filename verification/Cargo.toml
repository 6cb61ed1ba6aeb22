[package]
name = "scuttled"
version = "0.1.0"
edition = "2021"
publish = false

[dependencies]
async-std = "1"
async-trait = "0.1"
bcrypt = "*"
chrono = "0.4"
env_logger = "*"
futures = "0.3"
log = "0.4"
mailparse = "*"
native-tls = "*"
notify = "*"
regex = "1"
rusqlite = { version = "*", features = ["bundled"] }
serde = { version = "1", features = ["derive"] }
serde_json = "1"
signal-hook = "*"
signal-hook-tokio = { version = "*", features = ["futures-v0_3"] }
thiserror = "*"
tokio = { version = "1", features = ["full"] }
tokio-native-tls = "*"
uuid = { version = "1", features = ["v4"] }
