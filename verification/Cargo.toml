[package]
name = "mrvn"
version = "0.1.0"
edition = "2021"
publish = false

[dependencies]
url = "*"
uuid = { version = "*", features = ["v4"] }
serde = { version = "*", features = ["derive"] }
serde_json = "*"
reqwest = { version = "*", default-features = false, features = ["stream"] }
tokio = { version = "*", features = ["rt-multi-thread", "macros", "process", "io-util", "time", "sync"] }
futures = "*"
bytes = "*"
parking_lot = "*"
dashmap = "*"
symphonia = "*"
rubato = "*"
adts-reader = "*"
mpeg2ts-reader = "*"
