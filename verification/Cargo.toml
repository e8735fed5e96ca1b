[package]
name = "neuraloc_core"
version = "0.1.0"
edition = "2021"
publish = false

[dependencies]
serde = { version = "1", features = ["derive"] }
serde_json = "1"
sha2 = "0.10"
saphyr = "*"
saphyr-parser = "*"
reqwest = { version = "0.12", default-features = false }
zip = { version = "*", default-features = false, features = ["deflate"] }
rusqlite = { version = "*", features = ["bundled"] }
chrono = "0.4"
uuid = { version = "1", features = ["v4"] }
thiserror = "*"
parking_lot = "*"
tokio = { version = "1", features = ["rt-multi-thread", "macros", "sync", "time", "process", "fs", "io-util"] }
sysinfo = "*"
async-trait = "*"
