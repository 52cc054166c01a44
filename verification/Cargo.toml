[package]
name = "local_runtime"
version = "0.1.0"
edition = "2021"
publish = false

[dependencies]
futures-core = "0.3"
futures-io = "0.3"
log = "0.4"
pin-project-lite = "0.2"
rustix = { version = "0.38", features = ["event", "fs", "net", "pipe", "time"] }
