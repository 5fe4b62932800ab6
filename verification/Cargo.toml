[package]
name = "rustgrpcdemo"
version = "0.1.0"
edition = "2021"
publish = false

[dependencies]
bytes = "*"
chrono = "*"
clap = { version = "*", features = ["derive"] }
prost = "*"
prost-types = "*"
tokio = { version = "*", features = ["macros", "rt-multi-thread", "sync", "time"] }
tokio-stream = "*"
tonic = "*"
tonic-prost = "*"
tonic-types = "*"
