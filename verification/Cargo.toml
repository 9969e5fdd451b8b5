[package]
name = "finalgo"
version = "0.1.0"
edition = "2021"
publish = false

[dependencies]
apca = "=0.31.0"
chrono = "=0.4.45"
clap = { version = "=4.6.7", features = ["derive"] }
heed = "=0.22.1"
indicatif = "=0.18.6"
rustc-hash = "=2.1.3"
serde = { version = "=1.0.229", features = ["derive"] }
serde_json = "=1.0.154"
tokio = { version = "=1.54.1", features = ["rt", "macros", "time"] }
tracing = "=0.1.44"
tracing-indicatif = "=0.3.14"
tracing-subscriber = { version = "=0.3.23", features = ["env-filter", "fmt"] }
trading-calendar = "=0.2.3"
