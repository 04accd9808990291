[package]
name = "postlane"
version = "0.1.0"
edition = "2021"
publish = false

[dependencies]
serde = { version = "=1.0.229", features = ["derive"] }
serde_json = "=1.0.154"
sha2 = "=0.10.9"
url = "=2.5.8"
chrono = "=0.4.45"
chrono-tz = "=0.10.4"
uuid = { version = "=1.29.0", features = ["v4"] }
dirs = "=5.0.1"
log = "=0.4.35"
async-trait = "=0.1.92"
tokio = { version = "=1.54.1", features = ["rt", "macros", "time"] }
reqwest = { version = "=0.12.28", default-features = false, features = ["json", "multipart"] }

[dev-dependencies]
tempfile = "=3.27.0"
