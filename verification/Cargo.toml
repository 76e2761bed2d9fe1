[package]
name = "pdfdk_core"
version = "0.1.0"
edition = "2021"
publish = false

[dependencies]
uuid = { version = "*", features = ["v4"] }
serde = { version = "*", features = ["derive"] }
serde_json = "*"
tokio = { version = "*", features = ["rt-multi-thread", "macros", "sync", "time", "fs"] }
notify = "*"
reqwest = { version = "*", default-features = false, features = ["json", "multipart"] }
dirs = "*"
