[package]
name = "mercury"
version = "0.2.0"
edition = "2021"
publish = false

[dependencies]
comrak = { version = "*", default-features = false }
htmd = "*"
decruft = "*"
html-escape = "*"
sha2 = "*"
hex = "*"
serde_json = "*"
serde = { version = "1", features = ["derive"] }
serde_yaml = "*"
handlebars = "*"
chrono = "*"
feed-rs = "*"
opml = "*"
uuid = { version = "1", features = ["v4"] }
log = "*"
tokio = { version = "1", features = ["full"] }
futures-util = "*"
reqwest = { version = "0.12", features = ["json", "stream"] }
deadpool-sqlite = "*"
