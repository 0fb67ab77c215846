[package]
name = "presenter_persistence"
version = "0.1.0"
edition = "2021"
publish = false

[dependencies]
uuid = { version = "1", features = ["v4", "v5"] }
chrono = { version = "0.4", default-features = false, features = ["clock", "std", "serde"] }
serde = { version = "1", features = ["derive"] }
serde_json = "1"
anyhow = "1"
thiserror = "1"
tracing = "0.1"
tokio = { version = "1", features = ["sync", "rt", "macros", "time"] }
bytes = "1"
sea-orm = { version = "1", default-features = false, features = ["macros", "sqlx-sqlite", "runtime-tokio-rustls", "with-chrono", "with-json"] }
axum = { version = "0.7", default-features = false, features = ["json", "tokio", "http1"] }
gstreamer = { version = "0.23", default-features = false }
gstreamer-webrtc = { version = "0.23", default-features = false }
gstreamer-utils = { version = "0.23", default-features = false }

[dev-dependencies]
