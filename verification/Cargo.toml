[package]
name = "venya"
version = "0.1.0"
edition = "2021"
publish = false

[dependencies]
regex = "1"
chrono = "0.4"
base64 = "0.22"
hound = "3"
tokio = { version = "1", features = ["rt", "rt-multi-thread", "macros", "time"] }
tracing = "0.1"
tracing-subscriber = { version = "0.3", features = ["env-filter", "fmt"] }
rand = "0.8"
serde = { version = "1", features = ["derive"] }
rusqlite = { version = "*", features = ["bundled"] }
rubato = "*"
cpal = "0.15"
rodio = "0.20"
