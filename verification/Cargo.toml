[package]
name = "goose-context"
version = "0.1.0"
edition = "2021"
publish = false

[dependencies]
anyhow = "=1.0.104"
async-trait = "=0.1.92"
chrono = { version = "=0.4.45", features = ["serde"] }
deadpool-postgres = "=0.14.2"
dirs = "=5.0.1"
pgvector = { version = "=0.4.2", features = ["postgres"] }
regex = "=1.13.1"
reqwest = { version = "=0.12.28", default-features = false, features = ["json"] }
rmcp = { version = "=3.8.0", default-features = false, features = ["server", "schemars"] }
schemars = "=1.2.3"
serde = { version = "=1.0.229", features = ["derive"] }
serde_json = { version = "=1.0.154", features = ["float_roundtrip"] }
tokio = { version = "=1.54.1", features = ["rt-multi-thread", "macros"] }
tokio-postgres = { version = "=0.7.18", features = ["with-uuid-1", "with-chrono-0_4", "with-serde_json-1"] }
tracing = "=0.1.44"
uuid = { version = "=1.29.0", features = ["v4", "serde"] }
