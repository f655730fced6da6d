[package]
name = "voicebot"
version = "0.1.0"
edition = "2021"
publish = false

[dependencies]
anyhow = "=1.0.104"
crossbeam-channel = "=0.5.17"
dashmap = "=6.2.1"
librespot-metadata = { version = "=0.8.0", default-features = false, features = ["rustls-tls-native-roots"] }
librespot-playback = { version = "=0.8.0", default-features = false, features = ["rustls-tls-native-roots"] }
serde = { version = "=1.0.229", features = ["derive"] }
serde_json = "=1.0.154"
serenity = { version = "=0.12.5", default-features = false, features = ["builder", "cache", "client", "gateway", "http", "model", "rustls_backend", "voice"] }
symphonia-core = "=0.5.5"
tokio = { version = "=1.54.1", features = ["macros", "rt", "sync", "time"] }
tracing = "=0.1.44"
url = "=2.5.8"
# The build script of librespot-core needs a 9.0 release.
vergen = "~9.0"
