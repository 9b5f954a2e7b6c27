[package]
name = "tweakers"
version = "0.1.0"
edition = "2021"
publish = false

[dependencies]
num_cpus = "=1.17.0"
regex = "=1.13.1"
scraper = "=0.29.0"
tokio = { version = "=1.54.1", features = ["full"] }
reqwest = { version = "=0.12.28", default-features = false, features = ["blocking", "cookies", "rustls-tls"] }
dirs = "=7.0.0"
which = "=8.0.6"
walkdir = "=2.5.0"
serde = { version = "=1.0.229", features = ["derive"] }
serde_json = "=1.0.154"
zip = { version = "=2.6.1", default-features = false, features = ["deflate"] }
tar = "=0.4.46"
flate2 = "=1.1.10"
log = "=0.4.35"
env_logger = "=0.11.11"
futures = "=0.3.34"
ashpd = { version = "=0.13.13", features = ["file_chooser"] }
url = "=2.5.8"
