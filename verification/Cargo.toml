[package]
name = "libgossip"
version = "0.1.0"
edition = "2021"
publish = false

[dependencies]
anyhow = "1"
async-trait = "0.1"
bytes = "1"
chrono = { version = "=0.4.45", features = ["serde"] }
# No file names this crate: iroh-docs 0.19 compiles against this pre-release
# of it and not against the releases that followed.
derive_more = "=1.0.0-beta.6"
flexbuffers = "=2.0.0"
futures-lite = "2"
futures-util = "0.3"
iroh-base = { version = "=0.19.0", features = ["key"] }
iroh-docs = { version = "=0.19.0", default-features = false }
postcard = { version = "=1.1.3", features = ["use-std"] }
serde = { version = "1", features = ["derive"] }
thiserror = "1"
tokio = { version = "1", features = ["full"] }
tracing = "0.1"
tracing-subscriber = { version = "0.3", features = ["env-filter"] }
uniffi = { version = "0.28", features = ["tokio"] }

[dev-dependencies]
rand = "0.8"
