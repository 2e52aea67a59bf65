[package]
name = "pacquet_core"
version = "0.1.0"
edition = "2021"
publish = false

[dependencies]
ssri = "=9.2.0"
elsa = "=1.11.2"
node-semver = "=2.2.0"
reqwest = { version = "0.11", default-features = false, features = ["json", "rustls-tls"] }
reqwest-middleware = "0.2"
reqwest-retry = "0.3"
tokio = { version = "1", features = ["rt", "time", "sync"] }
futures-util = "0.3"
rayon = "1"
walkdir = "2"
serde = { version = "1", features = ["derive"] }
thiserror = "1"
derive_more = "0.99"
pipe-trait = "0.4"
portpicker = "0.1"
sysinfo = "0.29"
assert_cmd = "2"
tar = "0.4"
flate2 = "1"
reflink-copy = "0.1"

[dev-dependencies]
serde_yaml = "=0.9.34"
