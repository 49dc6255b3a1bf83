[package]
name = "thumbor"
version = "0.1.0"
edition = "2021"
publish = false

[dependencies]
anyhow = "=1.0.104"
axum = "=0.2.8"
base64 = "=0.13.1"
bytes = "=1.12.1"
clap = { version = "=4.6.7", features = ["derive"] }
colored = "=2.2.0"
image = { version = "=0.24.9", default-features = false, features = ["jpeg", "png"] }
jpeg-decoder = { version = "=0.3.2", default-features = false, features = ["platform_independent"] }
jsonxf = "=1.1.1"
lru = "=0.6.6"
mime = "=0.3.17"
percent-encoding = "=2.3.2"
prost = "=0.12.6"
reqwest = { version = "=0.11.27", default-features = false, features = ["json"] }
serde = { version = "1", features = ["derive"] }
sqlparser = "=0.10.0"
tokio = { version = "1", features = ["macros", "rt-multi-thread", "sync"] }
tower = "0.4"
tracing = "0.1"
tracing-subscriber = "0.2"
