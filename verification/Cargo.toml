[package]
name = "daemonctl"
version = "0.1.0"
edition = "2021"
publish = false

[dependencies]
serde = { version = "=1.0.229", features = ["derive"] }
serde_json = "=1.0.151"
keyring = { version = "=3.6.3", features = ["apple-native", "windows-native", "linux-native"] }
tokio = { version = "=1.53.2", features = ["rt", "net", "io-util", "time", "process", "sync", "macros"] }
libc = "=0.2.190"
