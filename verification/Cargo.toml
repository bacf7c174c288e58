[package]
name = "mountfs"
version = "0.1.0"
edition = "2021"
publish = false

[dependencies]
async-trait = "0.1"
bytes = "1"
crossbeam-channel = "0.5"
dashmap = "=6.2.1"
futures-lite = "2"
libunftp = { version = "=0.24.0", default-features = false, features = ["ring"] }
log = "0.4"
moka = { version = "0.12", features = ["sync"] }
opendal-core = { version = "=0.59.5", features = ["blocking", "services-memory"] }
prost-types = "=0.14.4"
rustic_core = "=0.13.0"
serde = { version = "1", features = ["derive"] }
serde_json = "1"
simplelog = "0.12"
sqlx = { version = "0.8", default-features = false, features = ["runtime-tokio", "sqlite"] }
thiserror = "2"
tokio = { version = "1", features = ["full"] }
tonic = "=0.14.9"
unftp-core = "=0.1.0"
uuid = { version = "=1.29.0", features = ["v4"] }
