[package]
name = "hal"
version = "0.1.0"
edition = "2021"
publish = false

[dependencies]
pulldown-cmark = "=0.12.2"
url = "=2.5.8"
regex = "=1.13.1"
base64 = "=0.22.1"
rand = "=0.8.8"
serde = { version = "=1.0.229", features = ["derive"] }
serde_json = "=1.0.154"
quick-xml = { version = "=0.37.5", features = ["serialize"] }
tokio = { version = "=1.54.1", features = ["full"] }
clap = { version = "=4.6.7", default-features = false, features = ["std", "derive", "help", "usage", "error-context"] }
termcolor = "=1.4.1"
thiserror = "=2.0.21"
scraper = "*"
reqwest = { version = "=0.12.28", default-features = false, features = ["json", "rustls-tls"] }
rig-core = { version = "=0.32.0", default-features = false }
futures = "=0.3.34"
tracing = "=0.1.44"
uuid = { version = "=1.29.0", features = ["v4"] }
governor = "=0.10.4"
libsql = { version = "=0.9.30", default-features = false, features = ["core"] }
spider = { version = "2", default-features = false }
spider_utils = "2"
