[package]
name = "grpc"
version = "0.1.0"
edition = "2021"
publish = false

[dependencies]
once_cell = "1"
rand = "0.8"
serde = { version = "1", features = ["derive"] }
serde_json = "1"
tokio = { version = "1", features = ["rt", "sync", "time", "macros"] }
tonic = { version = "0.12", default-features = false, features = ["codegen"] }
url = "2"
