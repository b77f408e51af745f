[package]
name = "autowc"
version = "0.1.0"
edition = "2021"
publish = false

[dependencies]
serde = { version = "=1.0.229", features = ["derive"] }
serde_json = "=1.0.154"
base64 = "=0.22.1"
png = "=0.17.16"
clap = { version = "=4.6.7", features = ["derive"] }
tokio = { version = "1", features = ["macros", "rt-multi-thread", "process", "io-util", "io-std", "sync", "time", "fs"] }
rmcp = { version = "*", features = ["server", "macros", "transport-io"] }
schemars = "1"
