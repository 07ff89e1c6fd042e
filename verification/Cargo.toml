[package]
name = "ringdrop"
version = "0.1.0"
edition = "2021"
publish = false

[dependencies]
anyhow = "=1.0.104"
iroh = "=0.98.2"
iroh-rings = { version = "=0.4.0", features = ["redb", "mem"] }
serde = { version = "=1.0.229", features = ["derive"] }
serde_json = "=1.0.154"
tokio = { version = "=1.54.1", features = ["full"] }
tracing = "=0.1.44"
uuid = { version = "=1.29.0", features = ["v4", "serde"] }

[dev-dependencies]
tempfile = "=3.27.0"
