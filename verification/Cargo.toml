[package]
name = "cfait"
version = "0.1.0"
edition = "2021"
publish = false

[dependencies]
chrono = "=0.4.45"
icalendar = "=0.17.15"
rrule = "=0.14.0"
uuid = { version = "=1.29.0", features = ["v4"] }
http = "=1.5.0"
libdav = "0.9"
hyper-rustls = { version = "0.27", default-features = false, features = ["http1", "ring", "native-tokio", "tls12"] }
hyper-util = { version = "0.1", features = ["client-legacy", "http1", "tokio"] }
rustls = { version = "0.23", default-features = false, features = ["ring", "std", "tls12"] }
rustls-native-certs = "0.8"
tower-http = { version = "0.6", features = ["auth"] }
futures = "0.3"
tokio = { version = "1", features = ["sync", "rt"] }
ratatui = { version = "0.30", default-features = false }
uniffi = { version = "0.32", features = ["tokio"] }
anyhow = "1"
log = "0.4"
android_logger = "0.15"
