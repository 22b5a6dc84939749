[package]
name = "dispatch"
version = "0.1.0"
edition = "2021"
publish = false

[dependencies]
uwl = "0.4"
serde_json = "1"
thiserror = "1"
failure = "0.1"
tungstenite = { version = "0.10", default-features = false }
reqwest = { version = "0.9", default-features = false }
opus = "0.2"
audiopus = "0.2"
