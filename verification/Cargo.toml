[package]
name = "luts"
version = "0.1.0"
edition = "2021"
publish = false

[dependencies]
uuid = { version = "=1.29.0", features = ["v4"] }
chrono = "=0.4.45"
rand = "=0.8.8"
regex = "=1.13.1"
serde = { version = "=1.0.229", features = ["derive"] }
serde_json = "=1.0.154"
genai = "=0.3.5"
tokio = { version = "=1.54.1", features = ["rt-multi-thread", "macros"] }
scraper = "=0.29.0"
fast_html2md = "=0.0.63"
reqwest = { version = "=0.12.28", default-features = false, features = ["rustls-tls"] }
