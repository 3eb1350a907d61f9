[package]
name = "tau_runtime_core"
version = "0.1.0"
edition = "2021"
publish = false

[dependencies]
serde = { version = "1", features = ["derive"] }
serde_json = "1"
globset = "0.4"
regex = "1"
uuid = "1"
ulid = "1"
chrono = { version = "0.4", default-features = false, features = ["alloc"] }
thiserror = "2"
jsonschema = { version = "*", default-features = false }
