[package]
name = "doiget_core"
version = "0.1.0"
edition = "2021"
publish = false

[dependencies]
bytes = "1"
camino = "1"
chrono = "0.4"
flate2 = "1"
futures-util = "0.3"
hex = "0.4"
reqwest = { version = "0.13", default-features = false, features = ["rustls-no-provider", "stream"] }
rustls = { version = "0.23", default-features = false, features = ["ring", "std", "tls12"] }
serde = { version = "1", features = ["derive"] }
serde_json = "1"
sha2 = "0.10"
tar = "0.4"
tempfile = "3"
thiserror = "2"
tokio = { version = "1", features = ["time", "rt"] }
toml = "0.8"
tracing = "0.1"
url = "2"
