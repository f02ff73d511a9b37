[package]
name = "yt"
version = "0.1.0"
edition = "2021"
publish = false

[dependencies]
quick-xml = "0.31"
regex = "1"
reqwest = { version = "0.12", default-features = false, features = ["json", "cookies", "rustls-tls"] }
serde = { version = "1", features = ["derive"] }
serde_json = "1"
thiserror = "1"
tokio = { version = "1", features = ["rt-multi-thread", "macros", "time"] }
url = "2"
clap = { version = "4", features = ["derive"] }
